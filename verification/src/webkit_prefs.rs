//! What the web view of macOS is told: features to disable and addresses to block.

use vstd::prelude::*;

use crate::text;

verus! {

/// The features to disable: those of a list with commas if there is one, and else
/// the scrolling that gives each scrolled element a layer of its own.
pub open spec fn disabled_names(list: Option<Seq<char>>) -> Seq<Seq<char>> {
    match list {
        Some(names) => text::pieces(names, ','),
        None => seq!["AsyncOverflowScrollingEnabled"@],
    }
}

/// The features to disable.
pub fn disabled_features(list: Option<String>) -> (r: Vec<String>)
    ensures
        text::texts(r@) == disabled_names(text::opt_text(list)),
{
    match list {
        Some(names) => text::split(names.as_str(), ','),
        None => {
            let mut features: Vec<String> = Vec::new();
            features.push("AsyncOverflowScrollingEnabled".to_owned());
            assert(text::texts(features@) =~= seq!["AsyncOverflowScrollingEnabled"@]);
            features
        },
    }
}

/// Whether a feature is to be disabled.
pub fn apply(disabled: &Vec<String>, key: &str) -> (r: bool)
    ensures
        r == text::texts(disabled@).contains(key@),
{
    let mut i: usize = 0;
    while i < disabled.len()
        invariant
            i <= disabled@.len(),
            forall|k: int| 0 <= k < i ==> text::texts(disabled@)[k] != key@,
        decreases disabled@.len() - i,
    {
        if text::same_text(disabled[i].as_str(), key) {
            assert(text::texts(disabled@)[i as int] == key@);
            return true;
        }
        i += 1;
    }
    false
}

/// The rules that block every address, except those of the application and, while it
/// is being debugged, of its local server.
pub open spec fn network_rules(debug: bool) -> Seq<char> {
    "[{\"trigger\":{\"url-filter\":\".*\"},\"action\":{\"type\":\"block\"}},{\"trigger\":{\"url-filter\":\"^tauri://localhost/\"},\"action\":{\"type\":\"ignore-previous-rules\"}},{\"trigger\":{\"url-filter\":\"^http://ipc\\\\.localhost/\"},\"action\":{\"type\":\"ignore-previous-rules\"}}"@
        + if debug {
        ",{\"trigger\":{\"url-filter\":\"^http://localhost:8085/\"},\"action\":{\"type\":\"ignore-previous-rules\"}}"@
    } else {
        ""@
    } + "]"@
}

/// The rules that block the network.
pub fn block_network(debug: bool) -> (r: String)
    ensures
        r@ == network_rules(debug),
{
    let dev = if debug {
        ",{\"trigger\":{\"url-filter\":\"^http://localhost:8085/\"},\"action\":{\"type\":\"ignore-previous-rules\"}}"
    } else {
        ""
    };
    text::concat3(
        "[{\"trigger\":{\"url-filter\":\".*\"},\"action\":{\"type\":\"block\"}},{\"trigger\":{\"url-filter\":\"^tauri://localhost/\"},\"action\":{\"type\":\"ignore-previous-rules\"}},{\"trigger\":{\"url-filter\":\"^http://ipc\\\\.localhost/\"},\"action\":{\"type\":\"ignore-previous-rules\"}}",
        dev,
        "]",
    )
}

// ---------------------------------------------------------------------------
// Laws
// ---------------------------------------------------------------------------

/// A feature is disabled exactly if it is among those listed with commas between them;
/// without a list it is the one feature.
pub proof fn law_disabled_features(list: Option<String>, disabled: Vec<String>, key: &str, r: bool)
    requires
        call_ensures(disabled_features, (list,), disabled),
        call_ensures(apply, (&disabled, key), r),
    ensures
        list is None ==> (r <==> key@ == "AsyncOverflowScrollingEnabled"@),
        list matches Some(names) ==> (r <==> text::pieces(names@, ',').contains(key@)),
        list matches Some(names) ==> text::joined(text::texts(disabled@), seq![',']) == names@,
{
    match list {
        Some(names) => {
            text::law_pieces(names@, ',', Seq::empty());
        },
        None => {
            let one = seq!["AsyncOverflowScrollingEnabled"@];
            assert(one[0] == "AsyncOverflowScrollingEnabled"@);
            assert(text::texts(disabled@) == one);
        },
    }
}

/// Everything is blocked first; then the application and its calls are let through, and
/// while it is being debugged its local server too, which is the only difference.
pub proof fn law_network_rules(debugged: String, released: String)
    requires
        call_ensures(block_network, (true,), debugged),
        call_ensures(block_network, (false,), released),
    ensures
        "[{\"trigger\":{\"url-filter\":\".*\"},\"action\":{\"type\":\"block\"}},"@.is_prefix_of(
            released@,
        ),
        text::occurs(
            released@,
            "{\"trigger\":{\"url-filter\":\"^tauri://localhost/\"},\"action\":{\"type\":\"ignore-previous-rules\"}}"@,
        ),
        text::occurs(
            released@,
            "{\"trigger\":{\"url-filter\":\"^http://ipc\\\\.localhost/\"},\"action\":{\"type\":\"ignore-previous-rules\"}}"@,
        ),
        released@.last() == ']',
        debugged@ == released@.drop_last()
            + ",{\"trigger\":{\"url-filter\":\"^http://localhost:8085/\"},\"action\":{\"type\":\"ignore-previous-rules\"}}"@
            + "]"@,
{
    let base =
        "[{\"trigger\":{\"url-filter\":\".*\"},\"action\":{\"type\":\"block\"}},{\"trigger\":{\"url-filter\":\"^tauri://localhost/\"},\"action\":{\"type\":\"ignore-previous-rules\"}},{\"trigger\":{\"url-filter\":\"^http://ipc\\\\.localhost/\"},\"action\":{\"type\":\"ignore-previous-rules\"}}"@;
    let block = "[{\"trigger\":{\"url-filter\":\".*\"},\"action\":{\"type\":\"block\"}},"@;
    let app =
        "{\"trigger\":{\"url-filter\":\"^tauri://localhost/\"},\"action\":{\"type\":\"ignore-previous-rules\"}}"@;
    let calls =
        "{\"trigger\":{\"url-filter\":\"^http://ipc\\\\.localhost/\"},\"action\":{\"type\":\"ignore-previous-rules\"}}"@;
    reveal_strlit(
        "[{\"trigger\":{\"url-filter\":\".*\"},\"action\":{\"type\":\"block\"}},{\"trigger\":{\"url-filter\":\"^tauri://localhost/\"},\"action\":{\"type\":\"ignore-previous-rules\"}},{\"trigger\":{\"url-filter\":\"^http://ipc\\\\.localhost/\"},\"action\":{\"type\":\"ignore-previous-rules\"}}",
    );
    reveal_strlit("[{\"trigger\":{\"url-filter\":\".*\"},\"action\":{\"type\":\"block\"}},");
    reveal_strlit(
        "{\"trigger\":{\"url-filter\":\"^tauri://localhost/\"},\"action\":{\"type\":\"ignore-previous-rules\"}}",
    );
    reveal_strlit(
        "{\"trigger\":{\"url-filter\":\"^http://ipc\\\\.localhost/\"},\"action\":{\"type\":\"ignore-previous-rules\"}}",
    );
    reveal_strlit("]");
    reveal_strlit("");
    assert(released@ =~= base + "]"@);
    assert(base =~= block + app + seq![','] + calls);
    assert(released@ =~= block + (app + seq![','] + calls + "]"@));
    let a = block.len() as int;
    assert(released@.subrange(a, a + app.len()) =~= app);
    assert(text::occurs_at(released@, app, a));
    let b = a + app.len() + 1;
    assert(released@.subrange(b, b + calls.len()) =~= calls);
    assert(text::occurs_at(released@, calls, b));
    assert(released@.drop_last() =~= base);
}

} // verus!
