//! Text operations, each stated over the characters that a string holds.

use vstd::arithmetic::div_mod::lemma_div_denominator;
use vstd::arithmetic::power::{lemma_pow0, lemma_pow_positive, pow};
use vstd::prelude::*;
use vstd::utf8::encode_utf8;

verus! {

/// `String::push` of the standard library: appends one character.
pub assume_specification[ String::push ](s: &mut String, c: char)
    ensures
        final(s)@ == old(s)@.push(c),
;

// ---------------------------------------------------------------------------
// Models
// ---------------------------------------------------------------------------

/// The characters that Unicode lists as white space.
pub open spec fn is_white(c: char) -> bool {
    let u = c as u32;
    ||| 0x9 <= u <= 0xd
    ||| u == 0x20
    ||| u == 0x85
    ||| u == 0xa0
    ||| u == 0x1680
    ||| 0x2000 <= u <= 0x200a
    ||| u == 0x2028
    ||| u == 0x2029
    ||| u == 0x202f
    ||| u == 0x205f
    ||| u == 0x3000
}

/// `s` without the white space that it starts with.
pub open spec fn trimmed_start(s: Seq<char>) -> Seq<char>
    decreases s.len(),
{
    if s.len() > 0 && is_white(s[0]) {
        trimmed_start(s.drop_first())
    } else {
        s
    }
}

/// `s` without the white space that it ends with.
pub open spec fn trimmed_end(s: Seq<char>) -> Seq<char>
    decreases s.len(),
{
    if s.len() > 0 && is_white(s.last()) {
        trimmed_end(s.drop_last())
    } else {
        s
    }
}

/// `s` without the white space at either end.
pub open spec fn trimmed(s: Seq<char>) -> Seq<char> {
    trimmed_end(trimmed_start(s))
}

/// The pieces of `s` between the separators `c`.
pub open spec fn pieces(s: Seq<char>, c: char) -> Seq<Seq<char>>
    decreases s.len(),
{
    if s.len() == 0 {
        seq![Seq::empty()]
    } else {
        let before = pieces(s.drop_last(), c);
        if s.last() == c {
            before.push(Seq::empty())
        } else {
            before.drop_last().push(before.last().push(s.last()))
        }
    }
}

/// The parts one after another, with `separator` between neighbours.
pub open spec fn joined(parts: Seq<Seq<char>>, separator: Seq<char>) -> Seq<char>
    decreases parts.len(),
{
    if parts.len() == 0 {
        Seq::empty()
    } else if parts.len() == 1 {
        parts[0]
    } else {
        joined(parts.drop_last(), separator) + separator + parts.last()
    }
}

/// The position of the first `c` in `s`, or the length of `s` if there is none.
pub open spec fn position(s: Seq<char>, c: char) -> int
    decreases s.len(),
{
    if s.len() == 0 || s[0] == c {
        0
    } else {
        1 + position(s.drop_first(), c)
    }
}

/// What stands before and after the first `c`, if `s` holds one.
pub open spec fn halves(s: Seq<char>, c: char) -> Option<(Seq<char>, Seq<char>)> {
    let i = position(s, c);
    if i < s.len() {
        Some((s.take(i), s.skip(i + 1)))
    } else {
        None
    }
}

/// The position of the first white space in `s`, or the length of `s` if there is none.
pub open spec fn white_position(s: Seq<char>) -> int
    decreases s.len(),
{
    if s.len() == 0 || is_white(s[0]) {
        0
    } else {
        1 + white_position(s.drop_first())
    }
}

/// What stands before and after the first white space, if `s` holds any.
pub open spec fn white_halves(s: Seq<char>) -> Option<(Seq<char>, Seq<char>)> {
    let i = white_position(s);
    if i < s.len() {
        Some((s.take(i), s.skip(i + 1)))
    } else {
        None
    }
}

/// The words of `s`: its longest runs without white space, in order.
pub open spec fn words(s: Seq<char>) -> Seq<Seq<char>>
    decreases s.len(),
{
    let rest = trimmed_start(s);
    if rest.len() == 0 {
        Seq::empty()
    } else {
        proof {
            lemma_trimmed_start(s);
            lemma_white_position(rest);
        }
        let end = white_position(rest);
        seq![rest.take(end)] + words(rest.skip(end))
    }
}

/// `s` stands in `t` with `i` characters before it.
pub open spec fn occurs_at(t: Seq<char>, s: Seq<char>, i: int) -> bool {
    0 <= i && i + s.len() <= t.len() && t.subrange(i, i + s.len()) == s
}

/// `s` stands somewhere in `t`.
pub open spec fn occurs(t: Seq<char>, s: Seq<char>) -> bool {
    exists|i: int| #[trigger] occurs_at(t, s, i)
}

/// `t` begins with `s`.
pub open spec fn begins(t: Seq<char>, s: Seq<char>) -> bool {
    occurs_at(t, s, 0)
}

/// `t` ends with `s`.
pub open spec fn ends(t: Seq<char>, s: Seq<char>) -> bool {
    occurs_at(t, s, t.len() - s.len())
}

/// `s` with every `from`, taken from the left without overlap, replaced by `to`.
pub open spec fn replaced(s: Seq<char>, from: Seq<char>, to: Seq<char>) -> Seq<char>
    decreases s.len(),
{
    if from.len() == 0 || s.len() < from.len() {
        s
    } else if begins(s, from) {
        to + replaced(s.skip(from.len() as int), from, to)
    } else {
        seq![s[0]] + replaced(s.drop_first(), from, to)
    }
}

/// `c`, in lower case if it is one of the letters A to Z.
pub open spec fn ascii_lower(c: char) -> char {
    if 'A' <= c <= 'Z' {
        ((c as u32) + 32) as char
    } else {
        c
    }
}

/// `s` with the letters A to Z in lower case.
pub open spec fn lowered(s: Seq<char>) -> Seq<char> {
    s.map_values(|c: char| ascii_lower(c))
}

/// A letter A to Z or a to z, or a digit 0 to 9.
pub open spec fn is_alphanumeric(c: char) -> bool {
    'a' <= c <= 'z' || 'A' <= c <= 'Z' || '0' <= c <= '9'
}

/// The digits of the base sixteen, in lower case.
pub open spec fn digits() -> Seq<char> {
    seq!['0', '1', '2', '3', '4', '5', '6', '7', '8', '9', 'a', 'b', 'c', 'd', 'e', 'f']
}

/// `n` in decimal.
pub open spec fn decimal(n: nat) -> Seq<char>
    decreases n,
{
    if n < 10 {
        seq![digits()[n as int]]
    } else {
        decimal(n / 10).push(digits()[(n % 10) as int])
    }
}

/// `n` in decimal, with a minus sign if it is negative.
pub open spec fn signed_decimal(n: int) -> Seq<char> {
    if n < 0 {
        seq!['-'] + decimal((-n) as nat)
    } else {
        decimal(n as nat)
    }
}

/// The last `width` digits of `n` in base sixteen.
pub open spec fn hexadecimal(n: nat, width: nat) -> Seq<char>
    decreases width,
{
    if width == 0 {
        Seq::empty()
    } else {
        hexadecimal(n / 16, (width - 1) as nat).push(digits()[(n % 16) as int])
    }
}

/// `s` holds the digits 0 to 9 only.
pub open spec fn all_digits(s: Seq<char>) -> bool {
    forall|i: int| 0 <= i < s.len() ==> '0' <= #[trigger] s[i] <= '9'
}

/// The number that the decimal digits of `s` stand for.
pub open spec fn digits_value(s: Seq<char>) -> nat
    decreases s.len(),
{
    if s.len() == 0 {
        0
    } else {
        digits_value(s.drop_last()) * 10 + ((s.last() as u32) - ('0' as u32)) as nat
    }
}

/// The number up to `limit` that `s` writes in decimal digits, if it writes one.
pub open spec fn digits_number(s: Seq<char>, limit: nat) -> Option<nat> {
    if s.len() > 0 && all_digits(s) && digits_value(s) <= limit {
        Some(digits_value(s))
    } else {
        None
    }
}

/// The number up to `limit` that `s` writes in decimal, after at most one plus sign.
pub open spec fn unsigned_number(s: Seq<char>, limit: nat) -> Option<nat> {
    if s.len() > 0 && s[0] == '+' {
        digits_number(s.drop_first(), limit)
    } else {
        digits_number(s, limit)
    }
}

/// The number of 64 bits and a sign that `s` writes in decimal, after at most one sign.
pub open spec fn signed_number(s: Seq<char>) -> Option<int> {
    if s.len() > 0 && s[0] == '-' {
        match digits_number(s.drop_first(), 0x8000_0000_0000_0000) {
            Some(n) => Some(-(n as int)),
            None => None,
        }
    } else {
        match unsigned_number(s, 0x7fff_ffff_ffff_ffff) {
            Some(n) => Some(n as int),
            None => None,
        }
    }
}

/// The number of code units that `s` takes in UTF-16.
pub open spec fn utf16_len(s: Seq<char>) -> nat
    decreases s.len(),
{
    if s.len() == 0 {
        0
    } else {
        utf16_len(s.drop_last()) + if (s.last() as u32) >= 0x10000 { 2nat } else { 1nat }
    }
}

/// The texts of some strings.
pub open spec fn texts(s: Seq<String>) -> Seq<Seq<char>> {
    s.map_values(|x: String| x@)
}

/// The text of an optional string.
pub open spec fn opt_text(s: Option<String>) -> Option<Seq<char>> {
    match s {
        Some(x) => Some(x@),
        None => None,
    }
}

/// The text of an optional string slice.
pub open spec fn opt_str(s: Option<&str>) -> Option<Seq<char>> {
    match s {
        Some(x) => Some(x@),
        None => None,
    }
}

/// A result, with its message as text.
pub open spec fn outcome<T>(r: Result<T, String>) -> Result<T, Seq<char>> {
    match r {
        Ok(x) => Ok(x),
        Err(e) => Err(e@),
    }
}

/// A result that holds a string, with both sides as text.
pub open spec fn text_outcome(r: Result<String, String>) -> Result<Seq<char>, Seq<char>> {
    match r {
        Ok(x) => Ok(x@),
        Err(e) => Err(e@),
    }
}

// ---------------------------------------------------------------------------
// Facts
// ---------------------------------------------------------------------------

/// Trimming at the start keeps an end of the text.
pub proof fn lemma_trimmed_start(s: Seq<char>)
    ensures
        trimmed_start(s).len() <= s.len(),
        trimmed_start(s).len() > 0 ==> !is_white(trimmed_start(s)[0]),
        trimmed_start(s) == s.skip(s.len() - trimmed_start(s).len()),
    decreases s.len(),
{
    if s.len() > 0 && is_white(s[0]) {
        lemma_trimmed_start(s.drop_first());
        let t = trimmed_start(s.drop_first());
        assert(s.drop_first().skip(s.drop_first().len() - t.len()) =~= s.skip(s.len() - t.len()));
    } else {
        assert(s.skip(0) =~= s);
    }
}

/// The first white space stands in the text or at its end.
pub proof fn lemma_white_position(s: Seq<char>)
    ensures
        0 <= white_position(s) <= s.len(),
        s.len() > 0 && !is_white(s[0]) ==> white_position(s) > 0,
    decreases s.len(),
{
    if s.len() > 0 && !is_white(s[0]) {
        lemma_white_position(s.drop_first());
    }
}

/// Trimming at the end keeps a beginning of the text.
pub proof fn lemma_trimmed_end(s: Seq<char>)
    ensures
        trimmed_end(s).len() <= s.len(),
        trimmed_end(s).len() > 0 ==> !is_white(trimmed_end(s).last()),
        trimmed_end(s) == s.take(trimmed_end(s).len() as int),
    decreases s.len(),
{
    if s.len() > 0 && is_white(s.last()) {
        lemma_trimmed_end(s.drop_last());
        let t = trimmed_end(s.drop_last());
        assert(s.drop_last().take(t.len() as int) =~= s.take(t.len() as int));
    } else {
        assert(s.take(s.len() as int) =~= s);
    }
}

/// A trimmed text is trimmed already, and holds no other characters.
pub proof fn lemma_trimmed(s: Seq<char>)
    ensures
        trimmed(trimmed(s)) == trimmed(s),
        forall|c: char| trimmed(s).contains(c) ==> #[trigger] s.contains(c),
{
    let start = trimmed_start(s);
    lemma_trimmed_start(s);
    lemma_trimmed_end(start);
    let t = trimmed(s);
    assert(trimmed_start(t) == t);
    assert forall|c: char| t.contains(c) implies #[trigger] s.contains(c) by {
        let i = choose|i: int| 0 <= i < t.len() && t[i] == c;
        assert(start[i] == c);
        assert(s[s.len() - start.len() + i] == c);
    }
}

/// What trimming at the start leaves out is white space.
proof fn lemma_trimmed_start_drops_white(s: Seq<char>, k: int)
    requires
        0 <= k < s.len() - trimmed_start(s).len(),
    ensures
        is_white(s[k]),
    decreases s.len(),
{
    if s.len() > 0 && is_white(s[0]) && k > 0 {
        lemma_trimmed_start_drops_white(s.drop_first(), k - 1);
        assert(s.drop_first()[k - 1] == s[k]);
    }
}

/// What trimming at the end leaves out is white space.
proof fn lemma_trimmed_end_drops_white(s: Seq<char>, k: int)
    requires
        trimmed_end(s).len() <= k < s.len(),
    ensures
        is_white(s[k]),
    decreases s.len(),
{
    if s.len() > 0 && is_white(s.last()) && k < s.len() - 1 {
        lemma_trimmed_end_drops_white(s.drop_last(), k);
        assert(s.drop_last()[k] == s[k]);
    }
}

/// `t` is a stretch of `s` that neither begins nor ends with white space, and all of `s`
/// that stands before and after it is white space.
pub open spec fn is_core(s: Seq<char>, t: Seq<char>) -> bool {
    &&& t.len() > 0 ==> !is_white(t[0]) && !is_white(t.last())
    &&& exists|from: int, to: int|
        #![trigger s.subrange(from, to)]
        {
            &&& 0 <= from <= to <= s.len()
            &&& t == s.subrange(from, to)
            &&& forall|k: int| 0 <= k < from ==> is_white(#[trigger] s[k])
            &&& forall|k: int| to <= k < s.len() ==> is_white(#[trigger] s[k])
        }
}

/// Trimming keeps the stretch between the first and the last character that is no white
/// space, whatever it holds, and leaves out nothing but white space.
pub proof fn law_trimming_drops_only_white_ends(s: Seq<char>)
    ensures
        is_core(s, trimmed(s)),
        forall|t: Seq<char>| #[trigger] is_core(s, t) ==> t == trimmed(s),
{
    let start = trimmed_start(s);
    let t = trimmed(s);
    lemma_trimmed_start(s);
    lemma_trimmed_end(start);
    let from = s.len() - start.len();
    let to = from + t.len();
    assert(t =~= s.subrange(from, to));
    assert forall|k: int| 0 <= k < from implies is_white(#[trigger] s[k]) by {
        lemma_trimmed_start_drops_white(s, k);
    }
    assert forall|k: int| to <= k < s.len() implies is_white(#[trigger] s[k]) by {
        assert(start[k - from] == s[k]);
        lemma_trimmed_end_drops_white(start, k - from);
    }
    if t.len() > 0 {
        assert(t[0] == start[0]);
    }
    assert forall|u: Seq<char>| #[trigger] is_core(s, u) implies u == t by {
        let (a, b) = choose|a: int, b: int|
            #![trigger s.subrange(a, b)]
            {
                &&& 0 <= a <= b <= s.len()
                &&& u == s.subrange(a, b)
                &&& forall|k: int| 0 <= k < a ==> is_white(#[trigger] s[k])
                &&& forall|k: int| b <= k < s.len() ==> is_white(#[trigger] s[k])
            };
        if t.len() > 0 {
            assert(!is_white(s[from]) && !is_white(s[to - 1]));
        }
        if u.len() > 0 {
            assert(!is_white(s[a]) && !is_white(s[b - 1]));
        }
        assert(u =~= t);
    }
}

/// There is at least one piece, and no piece holds the separator.
pub proof fn lemma_pieces(s: Seq<char>, c: char)
    ensures
        pieces(s, c).len() > 0,
        forall|i: int| 0 <= i < pieces(s, c).len() ==> !(#[trigger] pieces(s, c)[i]).contains(c),
    decreases s.len(),
{
    if s.len() > 0 {
        lemma_pieces(s.drop_last(), c);
        let before = pieces(s.drop_last(), c);
        if s.last() != c {
            let last = before.last();
            assert(!before[before.len() - 1].contains(c));
            assert(!last.push(s.last()).contains(c)) by {
                if last.push(s.last()).contains(c) {
                    let i = choose|i: int|
                        0 <= i < last.push(s.last()).len() && last.push(s.last())[i] == c;
                    assert(last[i] == c);
                }
            }
        }
    }
}

/// A text without the separator only makes the last piece longer.
proof fn lemma_pieces_of_longer(s: Seq<char>, t: Seq<char>, c: char)
    requires
        !t.contains(c),
    ensures
        pieces(s + t, c) == pieces(s, c).drop_last().push(pieces(s, c).last() + t),
    decreases t.len(),
{
    lemma_pieces(s, c);
    if t.len() == 0 {
        assert(s + t =~= s);
        assert(pieces(s, c).last() + t =~= pieces(s, c).last());
        assert(pieces(s, c).drop_last().push(pieces(s, c).last()) =~= pieces(s, c));
    } else {
        let shorter = t.drop_last();
        assert(t.contains(t.last()));
        assert(!shorter.contains(c)) by {
            if shorter.contains(c) {
                let i = choose|i: int| 0 <= i < shorter.len() && shorter[i] == c;
                assert(t[i] == c);
            }
        }
        lemma_pieces_of_longer(s, shorter, c);
        assert((s + t).drop_last() =~= s + shorter);
        assert((s + t).last() == t.last());
        let before = pieces(s + shorter, c);
        assert(before.drop_last() =~= pieces(s, c).drop_last());
        assert(before.last() == pieces(s, c).last() + shorter);
        assert((pieces(s, c).last() + shorter).push(t.last()) =~= pieces(s, c).last() + t);
    }
}

/// Parts without the separator that are joined by it are the pieces of the whole.
pub proof fn lemma_pieces_of_joined(parts: Seq<Seq<char>>, separator: Seq<char>, c: char)
    requires
        parts.len() > 0,
        separator == seq![c],
        forall|i: int| 0 <= i < parts.len() ==> !(#[trigger] parts[i]).contains(c),
    ensures
        pieces(joined(parts, separator), c) == parts,
    decreases parts.len(),
{
    if parts.len() == 1 {
        let none = Seq::<char>::empty();
        lemma_pieces_of_longer(none, parts[0], c);
        assert(none + parts[0] =~= parts[0]);
        assert(pieces(none, c).drop_last() =~= Seq::empty());
        assert(pieces(parts[0], c) =~= parts);
    } else {
        let before = parts.drop_last();
        lemma_pieces_of_joined(before, separator, c);
        let start = joined(before, separator) + separator;
        assert(start.drop_last() =~= joined(before, separator));
        assert(start.last() == c);
        assert(pieces(start, c) == before.push(Seq::empty()));
        lemma_pieces_of_longer(start, parts.last(), c);
        assert(before.push(Seq::empty()).drop_last() =~= before);
        assert(Seq::<char>::empty() + parts.last() =~= parts.last());
        assert(before.push(parts.last()) =~= parts);
    }
}

/// Parts can be joined from the front as well as from the back.
proof fn lemma_joined_front(part: Seq<char>, parts: Seq<Seq<char>>, separator: Seq<char>)
    requires
        parts.len() > 0,
    ensures
        joined(seq![part] + parts, separator) == part + separator + joined(parts, separator),
    decreases parts.len(),
{
    let all = seq![part] + parts;
    assert(all.last() == parts.last());
    if parts.len() == 1 {
        assert(all.drop_last() =~= seq![part]);
        assert(joined(all.drop_last(), separator) == part);
    } else {
        assert(all.drop_last() =~= seq![part] + parts.drop_last());
        lemma_joined_front(part, parts.drop_last(), separator);
        assert(joined(all, separator) =~= part + separator + joined(parts, separator));
    }
}

/// `s` is made of parts with `from` between neighbours, `t` of the same parts with `to`
/// instead, and `from` stands in none of the parts.
pub open spec fn is_replacement(s: Seq<char>, from: Seq<char>, to: Seq<char>, t: Seq<char>) -> bool {
    exists|parts: Seq<Seq<char>>|
        {
            &&& parts.len() > 0
            &&& s == #[trigger] joined(parts, from)
            &&& t == joined(parts, to)
            &&& forall|i: int| 0 <= i < parts.len() ==> !occurs(#[trigger] parts[i], from)
        }
}

/// One more character in front of a part in which `from` does not stand.
proof fn lemma_longer_part(s: Seq<char>, from: Seq<char>, part: Seq<char>, rest: Seq<char>)
    requires
        from.len() > 0,
        s == part + rest,
        part.len() > 0,
        !begins(s, from),
        !occurs(part.drop_first(), from),
    ensures
        !occurs(part, from),
{
    if occurs(part, from) {
        let i = choose|i: int| #[trigger] occurs_at(part, from, i);
        if i == 0 {
            assert(s.subrange(0, from.len() as int) =~= part.subrange(0, from.len() as int));
        } else {
            assert(part.drop_first().subrange(i - 1, i - 1 + from.len()) =~= part.subrange(
                i,
                i + from.len(),
            ));
            assert(occurs_at(part.drop_first(), from, i - 1));
        }
    }
}

/// `s` is made of `parts` with `from` between neighbours, `t` with `to`, and `from` stands in
/// none of the parts.
spec fn is_parted(
    parts: Seq<Seq<char>>,
    s: Seq<char>,
    from: Seq<char>,
    to: Seq<char>,
    t: Seq<char>,
) -> bool {
    &&& parts.len() > 0
    &&& s == joined(parts, from)
    &&& t == joined(parts, to)
    &&& forall|i: int| 0 <= i < parts.len() ==> !occurs(#[trigger] parts[i], from)
}

/// One more occurrence in front.
proof fn lemma_parted_at_front(
    parts: Seq<Seq<char>>,
    s: Seq<char>,
    from: Seq<char>,
    to: Seq<char>,
    t: Seq<char>,
) -> (all: Seq<Seq<char>>)
    requires
        from.len() > 0,
        is_parted(parts, s, from, to, t),
    ensures
        is_parted(all, from + s, from, to, to + t),
{
    let none = Seq::<char>::empty();
    let all = seq![none] + parts;
    lemma_joined_front(none, parts, from);
    lemma_joined_front(none, parts, to);
    assert(none + from + s =~= from + s);
    assert(none + to + t =~= to + t);
    assert forall|i: int| 0 <= i < all.len() implies !occurs(#[trigger] all[i], from) by {
        if i > 0 {
            assert(all[i] == parts[i - 1]);
        }
    }
    all
}

/// One more character in front, with which no occurrence begins.
proof fn lemma_parted_after(
    parts: Seq<Seq<char>>,
    c: char,
    s: Seq<char>,
    from: Seq<char>,
    to: Seq<char>,
    t: Seq<char>,
) -> (all: Seq<Seq<char>>)
    requires
        from.len() > 0,
        is_parted(parts, s, from, to, t),
        !begins(seq![c] + s, from),
    ensures
        is_parted(all, seq![c] + s, from, to, seq![c] + t),
{
    let first = seq![c] + parts[0];
    let more = parts.drop_first();
    let all = seq![first] + more;
    assert(parts =~= seq![parts[0]] + more);
    assert(first.drop_first() =~= parts[0]);
    let rest = if more.len() == 0 {
        Seq::<char>::empty()
    } else {
        from + joined(more, from)
    };
    if more.len() == 0 {
        assert(parts =~= seq![parts[0]]);
        assert(all =~= seq![first]);
        assert(s == parts[0] && t == parts[0]);
        assert(joined(all, from) == first && joined(all, to) == first);
        assert(seq![c] + s =~= first + rest);
    } else {
        lemma_joined_front(parts[0], more, from);
        lemma_joined_front(parts[0], more, to);
        lemma_joined_front(first, more, from);
        lemma_joined_front(first, more, to);
        assert(first + from + joined(more, from) =~= seq![c] + s);
        assert(first + to + joined(more, to) =~= seq![c] + t);
        assert(seq![c] + s =~= first + rest);
    }
    lemma_longer_part(seq![c] + s, from, first, rest);
    assert forall|i: int| 0 <= i < all.len() implies !occurs(#[trigger] all[i], from) by {
        if i > 0 {
            assert(all[i] == parts[i]);
        }
    }
    all
}

proof fn lemma_replaced_is_parted(s: Seq<char>, from: Seq<char>, to: Seq<char>) -> (parts: Seq<
    Seq<char>,
>)
    requires
        from.len() > 0,
    ensures
        is_parted(parts, s, from, to, replaced(s, from, to)),
    decreases s.len(),
{
    if s.len() < from.len() {
        let parts = seq![s];
        assert(joined(parts, from) == s && joined(parts, to) == s);
        assert(!occurs(parts[0], from));
        parts
    } else if begins(s, from) {
        let rest = s.skip(from.len() as int);
        let parts = lemma_replaced_is_parted(rest, from, to);
        assert(s =~= from + rest);
        lemma_parted_at_front(parts, rest, from, to, replaced(rest, from, to))
    } else {
        let rest = s.drop_first();
        let parts = lemma_replaced_is_parted(rest, from, to);
        assert(s =~= seq![s[0]] + rest);
        lemma_parted_after(parts, s[0], rest, from, to, replaced(rest, from, to))
    }
}

/// Replacing changes every occurrence, and nothing else.
pub proof fn law_replacing(s: Seq<char>, from: Seq<char>, to: Seq<char>)
    requires
        from.len() > 0,
    ensures
        is_replacement(s, from, to, replaced(s, from, to)),
{
    let parts = lemma_replaced_is_parted(s, from, to);
    assert(s == joined(parts, from));
}

/// A number does not get smaller when a digit is appended.
proof fn lemma_digits_value_push(s: Seq<char>, c: char)
    requires
        '0' <= c <= '9',
    ensures
        digits_value(s.push(c)) == digits_value(s) * 10 + ((c as u32) - ('0' as u32)),
        digits_value(s.push(c)) >= digits_value(s),
{
    assert(s.push(c).drop_last() =~= s);
}

// ---------------------------------------------------------------------------
// Operations
// ---------------------------------------------------------------------------

/// The characters of a string.
pub fn chars_of(s: &str) -> (r: Vec<char>)
    ensures
        r@ == s@,
{
    let mut r: Vec<char> = Vec::new();
    for c in it: s.chars()
        invariant
            r@ == it.seq().take(it.index() as int),
            it.seq() == s@,
    {
        r.push(c);
    }
    assert(s@.take(s@.len() as int) =~= s@);
    r
}

/// The string made of the characters from `from` up to `to`.
pub fn string_between(chars: &Vec<char>, from: usize, to: usize) -> (r: String)
    requires
        from <= to <= chars@.len(),
    ensures
        r@ == chars@.subrange(from as int, to as int),
{
    let mut r = String::new();
    let mut i: usize = from;
    while i < to
        invariant
            from <= i <= to <= chars@.len(),
            r@ == chars@.subrange(from as int, i as int),
        decreases to - i,
    {
        r.push(chars[i]);
        i += 1;
        assert(chars@.subrange(from as int, i as int) =~= chars@.subrange(from as int, i - 1).push(
            chars@[i - 1],
        ));
    }
    r
}

/// Whether two strings hold the same characters.
pub fn same_text(a: &str, b: &str) -> (r: bool)
    ensures
        r == (a@ == b@),
{
    a.to_owned() == b.to_owned()
}

/// One string after another.
pub fn concat(a: &str, b: &str) -> (r: String)
    ensures
        r@ == a@ + b@,
{
    let mut r = a.to_owned();
    r.append(b);
    r
}

/// Three strings, one after another.
pub fn concat3(a: &str, b: &str, c: &str) -> (r: String)
    ensures
        r@ == a@ + b@ + c@,
{
    let mut r = a.to_owned();
    r.append(b);
    r.append(c);
    r
}

/// Whether a character is white space.
pub fn white(c: char) -> (r: bool)
    ensures
        r == is_white(c),
{
    let u = c as u32;
    (0x9 <= u && u <= 0xd) || u == 0x20 || u == 0x85 || u == 0xa0 || u == 0x1680 || (0x2000 <= u && u
        <= 0x200a) || u == 0x2028 || u == 0x2029 || u == 0x202f || u == 0x205f || u == 0x3000
}

/// The text without the white space that it starts with.
pub fn trim_start(s: &str) -> (r: String)
    ensures
        r@ == trimmed_start(s@),
{
    let chars = chars_of(s);
    let mut i: usize = 0;
    assert(chars@.skip(0) =~= chars@);
    while i < chars.len() && white(chars[i])
        invariant
            i <= chars@.len(),
            trimmed_start(s@) == trimmed_start(chars@.skip(i as int)),
        decreases chars@.len() - i,
    {
        assert(chars@.skip(i as int).drop_first() =~= chars@.skip(i + 1));
        i += 1;
    }
    assert(chars@.skip(i as int) =~= chars@.subrange(i as int, chars@.len() as int));
    string_between(&chars, i, chars.len())
}

/// The text without the white space at either end.
pub fn trim(s: &str) -> (r: String)
    ensures
        r@ == trimmed(s@),
{
    let chars = chars_of(trim_start(s).as_str());
    let mut n: usize = chars.len();
    assert(chars@.take(n as int) =~= chars@);
    while n > 0 && white(chars[n - 1])
        invariant
            n <= chars@.len(),
            trimmed_end(chars@) == trimmed_end(chars@.take(n as int)),
        decreases n,
    {
        assert(chars@.take(n as int).drop_last() =~= chars@.take(n - 1));
        n -= 1;
    }
    assert(chars@.take(n as int) =~= chars@.subrange(0, n as int));
    string_between(&chars, 0, n)
}

/// The pieces between the separators.
pub fn split(s: &str, c: char) -> (r: Vec<String>)
    ensures
        texts(r@) == pieces(s@, c),
        r@.len() > 0,
{
    let chars = chars_of(s);
    let mut r: Vec<String> = Vec::new();
    let mut current = String::new();
    let mut i: usize = 0;
    assert(texts(r@).push(current@) =~= pieces(chars@.take(0), c));
    while i < chars.len()
        invariant
            i <= chars@.len(),
            texts(r@).push(current@) == pieces(chars@.take(i as int), c),
        decreases chars.len() - i,
    {
        let next = chars[i];
        let ghost before = texts(r@).push(current@);
        assert(chars@.take(i + 1).drop_last() =~= chars@.take(i as int));
        assert(before.drop_last() =~= texts(r@));
        if next == c {
            r.push(current);
            assert(texts(r@) =~= before);
            current = String::new();
        } else {
            current.push(next);
        }
        i += 1;
    }
    assert(chars@.take(chars@.len() as int) =~= chars@);
    let ghost done = r@;
    let ghost tail = current@;
    r.push(current);
    assert(texts(r@) =~= texts(done).push(tail));
    r
}

/// The parts in one string, with the separator between neighbours.
pub fn join(parts: &Vec<String>, separator: &str) -> (r: String)
    ensures
        r@ == joined(texts(parts@), separator@),
{
    let mut r = String::new();
    let mut i: usize = 0;
    let ghost all = texts(parts@);
    while i < parts.len()
        invariant
            i <= parts@.len(),
            all == texts(parts@),
            r@ == joined(all.take(i as int), separator@),
        decreases parts.len() - i,
    {
        if i > 0 {
            r.append(separator);
        }
        r.append(parts[i].as_str());
        assert(all.take(i + 1).drop_last() =~= all.take(i as int));
        i += 1;
        if i == 1 {
            assert(r@ =~= all[0]);
        }
    }
    assert(all.take(all.len() as int) =~= all);
    r
}

/// The position of the first `c`, or the number of characters if there is none.
pub fn find(chars: &Vec<char>, c: char) -> (r: usize)
    ensures
        r == position(chars@, c),
        r <= chars@.len(),
{
    let mut i: usize = 0;
    assert(chars@.skip(0) =~= chars@);
    while i < chars.len() && chars[i] != c
        invariant
            i <= chars@.len(),
            position(chars@, c) == i + position(chars@.skip(i as int), c),
        decreases chars@.len() - i,
    {
        assert(chars@.skip(i as int).drop_first() =~= chars@.skip(i + 1));
        i += 1;
    }
    i
}

/// What stands before and after the first `c`.
pub fn split_once(s: &str, c: char) -> (r: Option<(String, String)>)
    ensures
        match r {
            Some(p) => halves(s@, c) == Some((p.0@, p.1@)),
            None => halves(s@, c) is None,
        },
{
    let chars = chars_of(s);
    let i = find(&chars, c);
    if i < chars.len() {
        assert(chars@.subrange(0, i as int) =~= chars@.take(i as int));
        assert(chars@.subrange(i + 1, chars@.len() as int) =~= chars@.skip(i + 1));
        Some((string_between(&chars, 0, i), string_between(&chars, i + 1, chars.len())))
    } else {
        None
    }
}

/// The position of the first white space from `from` on.
fn find_white(chars: &Vec<char>, from: usize) -> (r: usize)
    requires
        from <= chars@.len(),
    ensures
        from <= r <= chars@.len(),
        r == from + white_position(chars@.skip(from as int)),
{
    let mut i: usize = from;
    while i < chars.len() && !white(chars[i])
        invariant
            from <= i <= chars@.len(),
            from + white_position(chars@.skip(from as int)) == i + white_position(
                chars@.skip(i as int),
            ),
        decreases chars@.len() - i,
    {
        assert(chars@.skip(i as int).drop_first() =~= chars@.skip(i + 1));
        i += 1;
    }
    i
}

/// What stands before and after the first white space.
pub fn split_white_once(s: &str) -> (r: Option<(String, String)>)
    ensures
        match r {
            Some(p) => white_halves(s@) == Some((p.0@, p.1@)),
            None => white_halves(s@) is None,
        },
{
    let chars = chars_of(s);
    assert(chars@.skip(0) =~= chars@);
    let i = find_white(&chars, 0);
    if i < chars.len() {
        assert(chars@.subrange(0, i as int) =~= chars@.take(i as int));
        assert(chars@.subrange(i + 1, chars@.len() as int) =~= chars@.skip(i + 1));
        Some((string_between(&chars, 0, i), string_between(&chars, i + 1, chars.len())))
    } else {
        None
    }
}

/// The words of a text.
pub fn split_words(s: &str) -> (r: Vec<String>)
    ensures
        texts(r@) == words(s@),
{
    let chars = chars_of(s);
    let mut r: Vec<String> = Vec::new();
    let mut i: usize = 0;
    assert(chars@.skip(0) =~= chars@);
    assert(texts(r@) =~= Seq::empty());
    assert(words(s@) =~= texts(r@) + words(chars@.skip(0)));
    while i < chars.len()
        invariant
            i <= chars@.len(),
            words(s@) == texts(r@) + words(chars@.skip(i as int)),
        decreases chars@.len() - i,
    {
        let ghost rest = chars@.skip(i as int);
        if white(chars[i]) {
            assert(rest.drop_first() =~= chars@.skip(i + 1));
            i += 1;
        } else {
            let end = find_white(&chars, i);
            proof {
                lemma_white_position(rest);
            }
            let word = string_between(&chars, i, end);
            assert(word@ =~= rest.take(end - i));
            assert(rest.skip(end - i) =~= chars@.skip(end as int));
            let ghost before = r@;
            let ghost text = word@;
            r.push(word);
            assert(texts(r@) =~= texts(before) + seq![text]);
            i = end;
        }
    }
    assert(chars@.skip(i as int) =~= Seq::empty());
    assert(texts(r@) + Seq::<Seq<char>>::empty() =~= texts(r@));
    r
}

/// Whether `part` stands in `chars` at position `at`.
fn stands_at(chars: &Vec<char>, part: &Vec<char>, at: usize) -> (r: bool)
    ensures
        r == occurs_at(chars@, part@, at as int),
{
    if at > chars.len() || part.len() > chars.len() - at {
        return false;
    }
    let mut i: usize = 0;
    while i < part.len()
        invariant
            i <= part@.len(),
            at + part@.len() <= chars@.len(),
            chars@.len() == chars.len(),
            forall|k: int| 0 <= k < i ==> #[trigger] part@[k] == chars@[at + k],
        decreases part.len() - i,
    {
        if part[i] != chars[at + i] {
            assert(chars@.subrange(at as int, at + part@.len())[i as int] == chars@[at + i]);
            return false;
        }
        i += 1;
    }
    assert(chars@.subrange(at as int, at + part@.len()) =~= part@);
    true
}

/// Whether the text begins with `part`.
pub fn starts_with(s: &str, part: &str) -> (r: bool)
    ensures
        r == begins(s@, part@),
{
    stands_at(&chars_of(s), &chars_of(part), 0)
}

/// Whether the text ends with `part`.
pub fn ends_with(s: &str, part: &str) -> (r: bool)
    ensures
        r == ends(s@, part@),
{
    let chars = chars_of(s);
    let tail = chars_of(part);
    if tail.len() > chars.len() {
        false
    } else {
        stands_at(&chars, &tail, chars.len() - tail.len())
    }
}

/// Whether `part` stands somewhere in the text.
pub fn contains(s: &str, part: &str) -> (r: bool)
    ensures
        r == occurs(s@, part@),
{
    let chars = chars_of(s);
    let tail = chars_of(part);
    let mut i: usize = 0;
    while i < chars.len()
        invariant
            i <= chars@.len(),
            chars@ == s@,
            tail@ == part@,
            forall|k: int| 0 <= k < i ==> !#[trigger] occurs_at(s@, part@, k),
        decreases chars.len() - i,
    {
        if stands_at(&chars, &tail, i) {
            return true;
        }
        i += 1;
    }
    let r = stands_at(&chars, &tail, i);
    if !r {
        assert forall|k: int| !#[trigger] occurs_at(s@, part@, k) by {
            if k > chars@.len() {
                assert(k + part@.len() > s@.len());
            }
        }
    }
    r
}

/// Whether the text holds the character `c`.
pub fn contains_char(s: &str, c: char) -> (r: bool)
    ensures
        r == s@.contains(c),
{
    let chars = chars_of(s);
    let mut i: usize = 0;
    while i < chars.len()
        invariant
            i <= chars@.len(),
            chars@ == s@,
            forall|k: int| 0 <= k < i ==> s@[k] != c,
        decreases chars.len() - i,
    {
        if chars[i] == c {
            assert(s@[i as int] == c);
            return true;
        }
        i += 1;
    }
    false
}

/// What follows `part`, if the text begins with it.
pub fn strip_prefix(s: &str, part: &str) -> (r: Option<String>)
    ensures
        opt_text(r) == if begins(s@, part@) {
            Some(s@.skip(part@.len() as int))
        } else {
            None::<Seq<char>>
        },
{
    let chars = chars_of(s);
    let head = chars_of(part);
    if stands_at(&chars, &head, 0) {
        assert(chars@.subrange(head@.len() as int, chars@.len() as int) =~= chars@.skip(
            head@.len() as int,
        ));
        Some(string_between(&chars, head.len(), chars.len()))
    } else {
        None
    }
}

/// The text with every `from` replaced by `to`.
pub fn replace(s: &str, from: &str, to: &str) -> (r: String)
    ensures
        r@ == replaced(s@, from@, to@),
{
    let chars = chars_of(s);
    let part = chars_of(from);
    if part.len() == 0 {
        return s.to_owned();
    }
    let mut r = String::new();
    let mut i: usize = 0;
    assert(chars@.skip(0) =~= chars@);
    assert(r@ + replaced(chars@, part@, to@) =~= replaced(chars@, part@, to@));
    while i < chars.len() && part.len() <= chars.len() - i
        invariant
            i <= chars@.len(),
            part@.len() > 0,
            replaced(chars@, part@, to@) == r@ + replaced(chars@.skip(i as int), part@, to@),
        decreases chars@.len() - i,
    {
        let ghost rest = chars@.skip(i as int);
        let ghost before = r@;
        assert(rest.subrange(0, part@.len() as int) =~= chars@.subrange(
            i as int,
            i + part@.len(),
        ));
        if stands_at(&chars, &part, i) {
            r.append(to);
            assert(rest.skip(part@.len() as int) =~= chars@.skip(i + part@.len()));
            i += part.len();
        } else {
            assert(!begins(rest, part@));
            r.push(chars[i]);
            assert(rest.drop_first() =~= chars@.skip(i + 1));
            assert(before.push(rest[0]) + replaced(rest.drop_first(), part@, to@) =~= before + (seq![
                rest[0],
            ] + replaced(rest.drop_first(), part@, to@)));
            i += 1;
        }
        assert(replaced(chars@, part@, to@) =~= r@ + replaced(chars@.skip(i as int), part@, to@));
    }
    let tail = string_between(&chars, i, chars.len());
    assert(tail@ =~= chars@.skip(i as int));
    r.append(tail.as_str());
    r
}

/// The character in lower case, if it is one of the letters A to Z.
pub fn lower_char(c: char) -> (r: char)
    ensures
        r == ascii_lower(c),
{
    if 'A' <= c && c <= 'Z' {
        ((c as u8) + 32) as char
    } else {
        c
    }
}

/// The text with the letters A to Z in lower case.
pub fn lower(s: &str) -> (r: String)
    ensures
        r@ == lowered(s@),
{
    let chars = chars_of(s);
    let mut r = String::new();
    let mut i: usize = 0;
    while i < chars.len()
        invariant
            i <= chars@.len(),
            r@ == lowered(chars@.take(i as int)),
        decreases chars.len() - i,
    {
        r.push(lower_char(chars[i]));
        i += 1;
        assert(lowered(chars@.take(i as int)) =~= lowered(chars@.take(i - 1)).push(
            ascii_lower(chars@[i - 1]),
        ));
    }
    assert(chars@.take(chars@.len() as int) =~= chars@);
    r
}

/// One digit of the base sixteen.
fn digit(d: usize) -> (r: char)
    requires
        d < 16,
    ensures
        r == digits()[d as int],
{
    let table: [char; 16] = [
        '0',
        '1',
        '2',
        '3',
        '4',
        '5',
        '6',
        '7',
        '8',
        '9',
        'a',
        'b',
        'c',
        'd',
        'e',
        'f',
    ];
    table[d]
}

/// Appends `n` in decimal.
fn push_decimal(r: &mut String, n: u64)
    ensures
        final(r)@ == old(r)@ + decimal(n as nat),
    decreases n,
{
    if n >= 10 {
        push_decimal(r, n / 10);
    }
    r.push(digit((n % 10) as usize));
    assert(r@ =~= old(r)@ + decimal(n as nat));
}

/// A number in decimal.
pub fn decimal_text(n: u64) -> (r: String)
    ensures
        r@ == decimal(n as nat),
{
    let mut r = String::new();
    push_decimal(&mut r, n);
    assert(r@ =~= decimal(n as nat));
    r
}

/// A number in decimal, with a minus sign if it is negative.
pub fn signed_decimal_text(n: i64) -> (r: String)
    ensures
        r@ == signed_decimal(n as int),
{
    if n < 0 {
        let mut r = String::new();
        r.push('-');
        let magnitude: u64 = (-(n as i128)) as u64;
        push_decimal(&mut r, magnitude);
        assert(r@ =~= signed_decimal(n as int));
        r
    } else {
        decimal_text(n as u64)
    }
}

/// Sixteen digits of a number in base sixteen.
pub fn hexadecimal_text(n: u64) -> (r: String)
    ensures
        r@ == hexadecimal(n as nat, 16),
{
    let mut r = String::new();
    push_hexadecimal(&mut r, n, 16);
    assert(r@ =~= hexadecimal(n as nat, 16));
    r
}

/// Appends the last `width` digits of `n` in base sixteen.
fn push_hexadecimal(r: &mut String, n: u64, width: u32)
    ensures
        final(r)@ == old(r)@ + hexadecimal(n as nat, width as nat),
    decreases width,
{
    if width > 0 {
        push_hexadecimal(r, n / 16, width - 1);
        r.push(digit((n % 16) as usize));
    }
    assert(r@ =~= old(r)@ + hexadecimal(n as nat, width as nat));
}

/// The number up to `limit` that the characters from `from` on write in decimal digits.
fn parse_digits(chars: &Vec<char>, from: usize, limit: u64) -> (r: Option<u64>)
    requires
        from <= chars@.len(),
    ensures
        match r {
            Some(n) => digits_number(chars@.skip(from as int), limit as nat) == Some(n as nat),
            None => digits_number(chars@.skip(from as int), limit as nat) is None,
        },
{
    let ghost all = chars@.skip(from as int);
    if from == chars.len() {
        return None;
    }
    let mut value: u128 = 0;
    let mut over = false;
    let mut i: usize = from;
    while i < chars.len()
        invariant
            from <= i <= chars@.len(),
            all == chars@.skip(from as int),
            all_digits(all.take(i - from)),
            !over ==> value == digits_value(all.take(i - from)) && value <= limit,
            over ==> digits_value(all.take(i - from)) > limit,
        decreases chars.len() - i,
    {
        let c = chars[i];
        let ghost before = all.take(i - from);
        assert(all.take(i + 1 - from) =~= before.push(c));
        if !('0' <= c && c <= '9') {
            assert(all[i - from] == c);
            return None;
        }
        proof {
            lemma_digits_value_push(before, c);
        }
        assert(all_digits(before.push(c)));
        if !over {
            value = value * 10 + ((c as u32) - 48) as u128;
            if value > limit as u128 {
                over = true;
            }
        }
        i += 1;
    }
    assert(all.take(all.len() as int) =~= all);
    if over {
        None
    } else {
        Some(value as u64)
    }
}

/// The number up to `limit` that the text writes in decimal.
pub fn parse_unsigned(s: &str, limit: u64) -> (r: Option<u64>)
    ensures
        match r {
            Some(n) => unsigned_number(s@, limit as nat) == Some(n as nat),
            None => unsigned_number(s@, limit as nat) is None,
        },
{
    let chars = chars_of(s);
    if chars.len() > 0 && chars[0] == '+' {
        assert(chars@.skip(1) =~= chars@.drop_first());
        parse_digits(&chars, 1, limit)
    } else {
        assert(chars@.skip(0) =~= chars@);
        parse_digits(&chars, 0, limit)
    }
}

/// The number of 64 bits and a sign that the text writes in decimal.
pub fn parse_signed(s: &str) -> (r: Option<i64>)
    ensures
        match r {
            Some(n) => signed_number(s@) == Some(n as int),
            None => signed_number(s@) is None,
        },
{
    let chars = chars_of(s);
    if chars.len() > 0 && chars[0] == '-' {
        assert(chars@.skip(1) =~= chars@.drop_first());
        match parse_digits(&chars, 1, 0x8000_0000_0000_0000) {
            Some(n) => Some((-(n as i128)) as i64),
            None => None,
        }
    } else {
        match parse_unsigned(s, 0x7fff_ffff_ffff_ffff) {
            Some(n) => Some(n as i64),
            None => None,
        }
    }
}

/// Whether the text takes at most `limit` code units in UTF-16.
pub fn fits_utf16(s: &str, limit: u64) -> (r: bool)
    requires
        limit < u64::MAX - 2,
    ensures
        r == (utf16_len(s@) <= limit),
{
    let chars = chars_of(s);
    let mut count: u64 = 0;
    let mut i: usize = 0;
    while i < chars.len()
        invariant
            i <= chars@.len(),
            chars@ == s@,
            limit < u64::MAX - 2,
            count <= limit,
            count == utf16_len(chars@.take(i as int)),
        decreases chars.len() - i,
    {
        assert(chars@.take(i + 1).drop_last() =~= chars@.take(i as int));
        count += if (chars[i] as u32) >= 0x10000 {
            2
        } else {
            1
        };
        i += 1;
        if count > limit {
            proof {
                lemma_utf16_len_take(chars@, i as int);
            }
            return false;
        }
    }
    assert(chars@.take(chars@.len() as int) =~= chars@);
    true
}

/// A beginning takes no more code units than the whole.
proof fn lemma_utf16_len_take(s: Seq<char>, i: int)
    requires
        0 <= i <= s.len(),
    ensures
        utf16_len(s.take(i)) <= utf16_len(s),
    decreases s.len(),
{
    if i < s.len() {
        lemma_utf16_len_take(s.drop_last(), i);
        assert(s.drop_last().take(i) =~= s.take(i));
    } else {
        assert(s.take(i) =~= s);
    }
}

/// The UTF-8 bytes of a text.
pub fn bytes_of(s: &str) -> (r: Vec<u8>)
    ensures
        r@ == encode_utf8(s@),
{
    s.as_bytes_vec()
}

/// The number of UTF-8 bytes of a text.
pub fn byte_len(s: &str) -> (r: usize)
    ensures
        r == encode_utf8(s@).len(),
{
    s.as_bytes().len()
}

/// A copy of an optional string.
pub fn copy_option(s: &Option<String>) -> (r: Option<String>)
    ensures
        opt_text(r) == opt_text(*s),
{
    match s {
        Some(x) => Some(x.clone()),
        None => None,
    }
}

// ---------------------------------------------------------------------------
// Laws
// ---------------------------------------------------------------------------

/// White space is the tabulator, the line breaks, the blank and the further blanks and
/// separators of Unicode, one by one.
pub proof fn law_white_space(c: char)
    ensures
        is_white(c) <==> {
            ||| c == '\t' || c == '\n' || c == '\u{b}' || c == '\u{c}' || c == '\r'
            ||| c == ' ' || c == '\u{85}' || c == '\u{a0}' || c == '\u{1680}'
            ||| c == '\u{2000}' || c == '\u{2001}' || c == '\u{2002}' || c == '\u{2003}'
            ||| c == '\u{2004}' || c == '\u{2005}' || c == '\u{2006}' || c == '\u{2007}'
            ||| c == '\u{2008}' || c == '\u{2009}' || c == '\u{200a}' || c == '\u{2028}'
            ||| c == '\u{2029}' || c == '\u{202f}' || c == '\u{205f}' || c == '\u{3000}'
        },
{
}

/// The pieces make up the text again when they are joined by the separator, and none of
/// them holds it: nothing else has both properties.
pub proof fn law_pieces(s: Seq<char>, c: char, parts: Seq<Seq<char>>)
    ensures
        joined(pieces(s, c), seq![c]) == s,
        forall|i: int| 0 <= i < pieces(s, c).len() ==> !(#[trigger] pieces(s, c)[i]).contains(c),
        parts.len() > 0 && joined(parts, seq![c]) == s && (forall|i: int|
            0 <= i < parts.len() ==> !(#[trigger] parts[i]).contains(c)) ==> parts == pieces(s, c),
{
    lemma_pieces(s, c);
    lemma_pieces_join(s, c);
    if parts.len() > 0 && joined(parts, seq![c]) == s && (forall|i: int|
        0 <= i < parts.len() ==> !(#[trigger] parts[i]).contains(c)) {
        lemma_pieces_of_joined(parts, seq![c], c);
    }
}

proof fn lemma_pieces_join(s: Seq<char>, c: char)
    ensures
        joined(pieces(s, c), seq![c]) == s,
    decreases s.len(),
{
    let all = pieces(s, c);
    if s.len() == 0 {
        assert(joined(all, seq![c]) =~= s);
    } else {
        let shorter = s.drop_last();
        let before = pieces(shorter, c);
        lemma_pieces(shorter, c);
        lemma_pieces_join(shorter, c);
        if s.last() == c {
            assert(all.drop_last() =~= before);
            assert(joined(all, seq![c]) =~= s);
        } else {
            assert(all.drop_last() =~= before.drop_last());
            assert(all.last() == before.last().push(s.last()));
            if before.len() == 1 {
                assert(before =~= seq![before[0]]);
                assert(joined(all, seq![c]) =~= s);
            } else {
                let start = joined(before.drop_last(), seq![c]) + seq![c];
                assert(shorter == start + before.last());
                assert(joined(all, seq![c]) == start + before.last().push(s.last()));
                assert(start + before.last().push(s.last()) =~= shorter.push(s.last()));
                assert(shorter.push(s.last()) =~= s);
            }
        }
    }
}

proof fn lemma_position(s: Seq<char>, c: char)
    ensures
        0 <= position(s, c) <= s.len(),
        position(s, c) < s.len() ==> s[position(s, c)] == c,
        forall|i: int| 0 <= i < position(s, c) ==> #[trigger] s[i] != c,
    decreases s.len(),
{
    if s.len() > 0 && s[0] != c {
        let rest = s.drop_first();
        lemma_position(rest, c);
        assert forall|i: int| 0 <= i < position(s, c) implies #[trigger] s[i] != c by {
            if i > 0 {
                assert(rest[i - 1] == s[i]);
            }
        }
    }
}

/// A text is split at the first separator, which stands in neither half's place: the
/// halves and the separator make up the text, and the first half holds none. There are no
/// halves exactly if there is no separator.
pub proof fn law_halves(s: Seq<char>, c: char)
    ensures
        halves(s, c) is None <==> !s.contains(c),
        halves(s, c) matches Some(h) ==> h.0 + seq![c] + h.1 == s && !h.0.contains(c),
{
    lemma_position(s, c);
    let i = position(s, c);
    if i < s.len() {
        assert(s.contains(s[i]));
        assert(s.take(i) + seq![c] + s.skip(i + 1) =~= s);
    }
}

proof fn lemma_before_white(s: Seq<char>)
    ensures
        white_position(s) < s.len() ==> is_white(s[white_position(s)]),
        forall|i: int| 0 <= i < white_position(s) ==> !is_white(#[trigger] s[i]),
    decreases s.len(),
{
    if s.len() > 0 && !is_white(s[0]) {
        let rest = s.drop_first();
        lemma_before_white(rest);
        lemma_white_position(rest);
        assert forall|i: int| 0 <= i < white_position(s) implies !is_white(#[trigger] s[i]) by {
            if i > 0 {
                assert(rest[i - 1] == s[i]);
            }
        }
    }
}

/// A text is split at its first white space, of which one character is left out.
pub proof fn law_white_halves(s: Seq<char>)
    ensures
        white_halves(s) is None <==> forall|i: int| 0 <= i < s.len() ==> !is_white(#[trigger] s[i]),
        white_halves(s) matches Some(h) ==> {
            &&& h.0.len() + h.1.len() + 1 == s.len()
            &&& is_white(s[h.0.len() as int])
            &&& h.0 + seq![s[h.0.len() as int]] + h.1 == s
            &&& forall|i: int| 0 <= i < h.0.len() ==> !is_white(#[trigger] h.0[i])
        },
{
    lemma_white_position(s);
    lemma_before_white(s);
    let i = white_position(s);
    if i < s.len() {
        assert(s.take(i) + seq![s[i]] + s.skip(i + 1) =~= s);
    }
}

/// White space in front does not change the words.
proof fn lemma_words_after_white(c: char, s: Seq<char>)
    requires
        is_white(c),
    ensures
        words(seq![c] + s) == words(s),
{
    assert((seq![c] + s).drop_first() =~= s);
    assert(trimmed_start(seq![c] + s) == trimmed_start(s));
}

/// A text without white space is one word, an empty text is none, and white space parts
/// words: the words around it are those before it and those after it.
pub proof fn law_words(s: Seq<char>, c: char, t: Seq<char>)
    requires
        is_white(c),
    ensures
        words(Seq::<char>::empty()).len() == 0,
        s.len() > 0 && (forall|i: int| 0 <= i < s.len() ==> !is_white(#[trigger] s[i])) ==> words(s)
            == seq![s],
        words(s + seq![c] + t) == words(s) + words(t),
    decreases s.len(),
{
    let none = Seq::<char>::empty();
    assert(words(none) =~= Seq::<Seq<char>>::empty());
    let all = s + seq![c] + t;
    lemma_white_position(s);
    lemma_before_white(s);
    if s.len() == 0 {
        assert(all =~= seq![c] + t);
        lemma_words_after_white(c, t);
        assert(s =~= none);
        assert(words(s) + words(t) =~= words(t));
    } else if is_white(s[0]) {
        let rest = s.drop_first();
        law_words(rest, c, t);
        assert(s =~= seq![s[0]] + rest);
        assert(all =~= seq![s[0]] + (rest + seq![c] + t));
        lemma_words_after_white(s[0], rest);
        lemma_words_after_white(s[0], rest + seq![c] + t);
    } else {
        assert(trimmed_start(s) == s);
        assert(all[0] == s[0]);
        assert(trimmed_start(all) == all);
        let end = white_position(s);
        lemma_white_position(all);
        lemma_before_white(all);
        let far = white_position(all);
        assert(far == end) by {
            if far < end {
                assert(all[far] == s[far]);
            }
            if end < far {
                assert(all[end] == if end < s.len() {
                    s[end]
                } else {
                    c
                });
            }
        }
        assert(all.take(end) =~= s.take(end));
        if end < s.len() {
            law_words(s.skip(end), c, t);
            assert(all.skip(end) =~= s.skip(end) + seq![c] + t);
            assert(words(all) =~= words(s) + words(t));
        } else {
            assert(s.take(end) =~= s);
            assert(s.skip(end) =~= none);
            assert(all.skip(end) =~= seq![c] + t);
            lemma_words_after_white(c, t);
            assert(words(s) =~= seq![s]);
            assert(words(all) =~= words(s) + words(t));
        }
    }
}

/// A text begins with its prefixes and ends with its suffixes.
pub proof fn law_ends_of_a_text(t: Seq<char>, s: Seq<char>)
    ensures
        begins(t, s) <==> s.is_prefix_of(t),
        ends(t, s) <==> s.is_suffix_of(t),
{
    if s.len() <= t.len() {
        assert(t.subrange(0, s.len() as int) == s <==> s.is_prefix_of(t));
        assert(t.subrange(t.len() - s.len(), t.len() as int) == s <==> s.is_suffix_of(t));
    }
}

/// A part stands in a text exactly if the text can be parted around it.
pub proof fn law_parts_of_a_text(t: Seq<char>, s: Seq<char>)
    ensures
        occurs(t, s) <==> exists|before: Seq<char>, after: Seq<char>|
            t == #[trigger] (before + s + after),
{
    if occurs(t, s) {
        let i = choose|i: int| #[trigger] occurs_at(t, s, i);
        let before = t.take(i);
        let after = t.skip(i + s.len());
        assert(t =~= before + s + after);
    }
    if exists|before: Seq<char>, after: Seq<char>| t == #[trigger] (before + s + after) {
        let (before, after) = choose|before: Seq<char>, after: Seq<char>|
            t == #[trigger] (before + s + after);
        let i = before.len() as int;
        assert(t.subrange(i, i + s.len()) =~= s);
        assert(occurs_at(t, s, i));
    }
}

/// In lower case, a letter A to Z is the letter at the same place of a to z, and every
/// other character is itself.
pub proof fn law_lower_case(s: Seq<char>, i: int)
    requires
        0 <= i < s.len(),
    ensures
        lowered(s).len() == s.len(),
        'A' <= s[i] <= 'Z' ==> 'a' <= lowered(s)[i] <= 'z' && (lowered(s)[i] as int) - ('a' as int)
            == (s[i] as int) - ('A' as int),
        !('A' <= s[i] <= 'Z') ==> lowered(s)[i] == s[i],
{
}

/// Digits stand for tens of what stands before them: a text of digits followed by another
/// one stands for the first, moved by as many places, and the second.
pub proof fn law_places(s: Seq<char>, t: Seq<char>, c: char)
    requires
        '0' <= c <= '9',
    ensures
        digits_value(seq![c]) == (c as int) - ('0' as int),
        digits_value(s + t) == digits_value(s) * pow(10, t.len()) + digits_value(t),
    decreases t.len(),
{
    assert(seq![c].drop_last() =~= Seq::<char>::empty());
    assert(digits_value(Seq::<char>::empty()) == 0);
    if t.len() == 0 {
        assert(s + t =~= s);
        reveal(pow);
    } else {
        let before = t.drop_last();
        law_places(s, before, c);
        assert((s + t).drop_last() =~= s + before);
        assert((s + t).last() == t.last());
        reveal(pow);
        let v = digits_value(s) as int;
        let w = pow(10, before.len());
        assert(v * w * 10 == v * (10 * w)) by (nonlinear_arith);
        assert((v * w + digits_value(before)) * 10 == v * w * 10 + digits_value(before) * 10)
            by (nonlinear_arith);
    }
}

/// A number is read back from its decimal form, which holds digits only and no needless
/// zero in front.
pub proof fn law_decimal_round_trip(n: nat)
    ensures
        digits_value(decimal(n)) == n,
        all_digits(decimal(n)),
        decimal(n).len() > 0,
        decimal(n)[0] == '0' ==> n == 0,
    decreases n,
{
    let d = digits()[(n % 10) as int];
    assert('0' <= d <= '9' && (d as int) - ('0' as int) == n % 10);
    if n < 10 {
        assert(decimal(n).drop_last() =~= Seq::<char>::empty());
        assert(digits_value(decimal(n).drop_last()) == 0);
    } else {
        law_decimal_round_trip(n / 10);
        lemma_digits_value_push(decimal(n / 10), d);
        assert(decimal(n)[0] == decimal(n / 10)[0]);
    }
}

/// The signed decimal form is that of the distance from zero, with a minus sign in front
/// exactly of numbers below zero.
pub proof fn law_signed_decimal(n: int)
    ensures
        n >= 0 ==> signed_decimal(n) == decimal(n as nat),
        n < 0 ==> signed_decimal(n).len() > 0 && signed_decimal(n)[0] == '-'
            && signed_decimal(n).skip(1) == decimal((-n) as nat),
{
    if n < 0 {
        assert(signed_decimal(n).skip(1) =~= decimal((-n) as nat));
    }
}

/// A number is read from a text of digits if it is within the limit, whether a plus sign
/// stands in front or not. A text with any other character is no number.
pub proof fn law_unsigned_numbers(s: Seq<char>, limit: nat)
    ensures
        s.len() > 0 && all_digits(s) && digits_value(s) <= limit ==> unsigned_number(s, limit)
            == Some(digits_value(s)) && unsigned_number(seq!['+'] + s, limit) == Some(
            digits_value(s),
        ),
        digits_value(s) > limit && all_digits(s) ==> unsigned_number(s, limit) is None
            && unsigned_number(seq!['+'] + s, limit) is None,
        s.len() == 0 ==> unsigned_number(s, limit) is None && unsigned_number(
            seq!['+'] + s,
            limit,
        ) is None,
        forall|i: int|
            0 <= i < s.len() && !('0' <= #[trigger] s[i] <= '9') && (i > 0 || s[i] != '+')
                ==> unsigned_number(s, limit) is None,
{
    assert((seq!['+'] + s).drop_first() =~= s);
    if s.len() > 0 && all_digits(s) {
        assert('0' <= s[0] <= '9');
    }
    assert forall|i: int|
        0 <= i < s.len() && !('0' <= #[trigger] s[i] <= '9') && (i > 0 || s[i] != '+') implies unsigned_number(
        s,
        limit,
    ) is None by {
        if s[0] == '+' && i > 0 {
            assert(s.drop_first()[i - 1] == s[i]);
        }
    }
}

/// Every number of 64 bits and a sign is read back from its decimal form, and a minus sign
/// turns a number over.
pub proof fn law_signed_numbers(n: int, s: Seq<char>)
    ensures
        i64::MIN <= n <= i64::MAX ==> signed_number(signed_decimal(n)) == Some(n),
        n < i64::MIN || n > i64::MAX ==> signed_number(signed_decimal(n)) is None,
        s.len() > 0 && all_digits(s) && digits_value(s) <= i64::MAX ==> signed_number(s) == Some(
            digits_value(s) as int,
        ) && signed_number(seq!['-'] + s) == Some(-(digits_value(s) as int)),
        signed_number(s) matches Some(v) ==> i64::MIN <= v <= i64::MAX,
{
    if n < 0 {
        law_decimal_round_trip((-n) as nat);
        law_signed_decimal(n);
        assert(signed_decimal(n).drop_first() =~= signed_decimal(n).skip(1));
    } else {
        law_decimal_round_trip(n as nat);
        assert('0' <= decimal(n as nat)[0] <= '9');
    }
    assert((seq!['-'] + s).drop_first() =~= s);
    if s.len() > 0 && all_digits(s) {
        assert('0' <= s[0] <= '9');
    }
}

/// The hexadecimal form has as many digits as asked for, and the digit at each place,
/// counted from the end, is the one that the number has there.
pub proof fn law_hexadecimal(n: nat, width: nat, k: nat)
    requires
        k < width,
    ensures
        hexadecimal(n, width).len() == width,
        hexadecimal(n, width)[width - 1 - k] == "0123456789abcdef"@[n as int / pow(16, k) % 16],
    decreases width,
{
    reveal_strlit("0123456789abcdef");
    assert("0123456789abcdef"@ =~= digits());
    let before = hexadecimal(n / 16, (width - 1) as nat);
    lemma_hexadecimal_len(n, width);
    lemma_hexadecimal_len(n / 16, (width - 1) as nat);
    if k == 0 {
        lemma_pow0(16);
        assert(n as int / 1 == n);
    } else {
        law_hexadecimal(n / 16, (width - 1) as nat, (k - 1) as nat);
        lemma_pow_positive(16, (k - 1) as nat);
        reveal(pow);
        lemma_div_denominator(n as int, 16, pow(16, (k - 1) as nat));
        assert(hexadecimal(n, width)[width - 1 - k] == before[width - 1 - k]);
    }
}

proof fn lemma_hexadecimal_len(n: nat, width: nat)
    ensures
        hexadecimal(n, width).len() == width,
    decreases width,
{
    if width > 0 {
        lemma_hexadecimal_len(n / 16, (width - 1) as nat);
    }
}

/// Texts need as many code units together as each by itself, and a character needs two
/// exactly if it is beyond the first 65536.
pub proof fn law_code_units(s: Seq<char>, t: Seq<char>, c: char)
    ensures
        utf16_len(s + t) == utf16_len(s) + utf16_len(t),
        utf16_len(seq![c]) == if (c as int) > 0xffff {
            2int
        } else {
            1int
        },
        utf16_len(Seq::<char>::empty()) == 0,
    decreases t.len(),
{
    assert(seq![c].drop_last() =~= Seq::<char>::empty());
    assert(utf16_len(Seq::<char>::empty()) == 0);
    if t.len() == 0 {
        assert(s + t =~= s);
    } else {
        law_code_units(s, t.drop_last(), c);
        assert((s + t).drop_last() =~= s + t.drop_last());
        assert((s + t).last() == t.last());
    }
}

/// The pieces around a separator are those before it and those after it.
pub proof fn law_pieces_around(s: Seq<char>, c: char, t: Seq<char>)
    ensures
        pieces(s + seq![c] + t, c) == pieces(s, c) + pieces(t, c),
    decreases t.len(),
{
    let all = s + seq![c] + t;
    lemma_pieces(s, c);
    if t.len() == 0 {
        assert(all.drop_last() =~= s);
        assert(all.last() == c);
        assert(pieces(t, c) =~= seq![Seq::<char>::empty()]);
        assert(pieces(all, c) =~= pieces(s, c) + pieces(t, c));
    } else {
        let before = t.drop_last();
        law_pieces_around(s, c, before);
        lemma_pieces(before, c);
        assert(all.drop_last() =~= s + seq![c] + before);
        assert(all.last() == t.last());
        let whole = pieces(s, c) + pieces(before, c);
        assert(whole.last() == pieces(before, c).last());
        assert(pieces(all, c) =~= pieces(s, c) + pieces(t, c));
    }
}

/// A text without the separator is its only piece.
pub proof fn law_one_piece(s: Seq<char>, c: char)
    requires
        !s.contains(c),
    ensures
        pieces(s, c) == seq![s],
{
    let none = Seq::<char>::empty();
    lemma_pieces_of_longer(none, s, c);
    assert(none + s =~= s);
    assert(pieces(none, c).drop_last() =~= Seq::empty());
    assert(pieces(s, c) =~= seq![s]);
}

/// Joining parts in two lots is joining them all.
pub proof fn law_joining(a: Seq<Seq<char>>, b: Seq<Seq<char>>, separator: Seq<char>)
    requires
        a.len() > 0,
        b.len() > 0,
    ensures
        joined(a + b, separator) == joined(a, separator) + separator + joined(b, separator),
    decreases b.len(),
{
    let all = a + b;
    assert(all.last() == b.last());
    if b.len() == 1 {
        assert(all.drop_last() =~= a);
    } else {
        let shorter = b.drop_last();
        law_joining(a, shorter, separator);
        assert(all.drop_last() =~= a + shorter);
        assert(joined(all, separator) =~= joined(a, separator) + separator + joined(b, separator));
    }
}

/// A number is read back from what was written of it, with a sign or without.
pub proof fn law_numbers_are_read_back(
    n: u64,
    i: i64,
    unsigned: &str,
    signed: &str,
    written: String,
    signed_written: String,
    r: Option<u64>,
    q: Option<i64>,
)
    requires
        call_ensures(decimal_text, (n,), written),
        call_ensures(signed_decimal_text, (i,), signed_written),
        unsigned@ == written@,
        signed@ == signed_written@,
        call_ensures(parse_unsigned, (unsigned, u64::MAX), r),
        call_ensures(parse_signed, (signed,), q),
    ensures
        r == Some(n),
        q == Some(i),
{
    law_decimal_round_trip(n as nat);
    law_unsigned_numbers(decimal(n as nat), u64::MAX as nat);
    law_signed_numbers(i as int, Seq::empty());
}

/// What is left of a string: trimmed, but for the white space at its ends; in pieces, all of
/// it but the separators; and without a beginning, what follows that.
pub proof fn law_what_is_left_of_a_string(
    s: &str,
    c: char,
    part: &str,
    trimmed: String,
    parts: Vec<String>,
    stripped: Option<String>,
)
    requires
        call_ensures(trim, (s,), trimmed),
        call_ensures(split, (s, c), parts),
        call_ensures(strip_prefix, (s, part), stripped),
    ensures
        is_core(s@, trimmed@),
        joined(texts(parts@), seq![c]) == s@,
        stripped is Some <==> part@.is_prefix_of(s@),
        stripped matches Some(rest) ==> part@ + rest@ == s@,
{
    law_trimming_drops_only_white_ends(s@);
    law_pieces(s@, c, Seq::empty());
    law_ends_of_a_text(s@, part@);
    if let Some(rest) = stripped {
        assert(part@ + rest@ =~= s@);
    }
}

} // verus!
