//! Which links may be shared and opened.

use crate::model::{outcome, AppResult};
use crate::text::{ascii_lowered, lowered_starts_with, trim, trimmed};
use vstd::prelude::*;

verus! {

/// An http or https link, whatever its case and the white space around it.
pub open spec fn is_http(url: Seq<char>) -> bool {
    let lower = ascii_lowered(trimmed(url));
    "http://"@.is_prefix_of(lower) || "https://"@.is_prefix_of(lower)
}

/// Whether a link may be handed to the browser. Anything but http(s) could
/// reach a file, a network share or a registered protocol handler.
pub fn is_http_url(url: &str) -> (r: bool)
    ensures
        r == is_http(url@),
{
    let bare = trim(url);
    lowered_starts_with(bare, "http://") || lowered_starts_with(bare, "https://")
}

/// Lets a clicked link through only if it is http(s).
pub fn open_link(url: &str) -> (r: AppResult<()>)
    ensures
        outcome(r) == if is_http(url@) {
            Ok::<(), Seq<char>>(())
        } else {
            Err("Only http(s) links can be opened."@)
        },
{
    if is_http_url(url) {
        Ok(())
    } else {
        Err("Only http(s) links can be opened.".to_string())
    }
}

/// Whether a character is the given small letter or its capital.
pub open spec fn is_letter(c: char, small: char) -> bool {
    c == small || c as u32 + 32 == small as u32
}

/// A link is let through exactly if, without the white space around it, it begins with
/// `http://` or `https://`, whatever the case of the letters.
pub proof fn law_is_http_url(url: &str, bare: &str, r: bool)
    requires
        call_ensures(is_http_url, (url,), r),
        call_ensures(trim, (url,), bare),
    ensures
        r <==> {
            let b = bare@;
            &&& b.len() >= 7
            &&& is_letter(b[0], 'h') && is_letter(b[1], 't') && is_letter(b[2], 't')
            &&& is_letter(b[3], 'p')
            &&& {
                ||| b[4] == ':' && b[5] == '/' && b[6] == '/'
                ||| b.len() >= 8 && is_letter(b[4], 's') && b[5] == ':' && b[6] == '/' && b[7]
                    == '/'
            }
        },
{
    let low = ascii_lowered(bare@);
    reveal_strlit("http://");
    reveal_strlit("https://");
    let p = "http://"@;
    let q = "https://"@;
    if p.is_prefix_of(low) {
        assert(p =~= low.subrange(0, 7));
        assert forall|i: int| 0 <= i < 7 implies low[i] == #[trigger] p[i] by {
            assert(low.subrange(0, 7)[i] == low[i]);
        }
        assert(low[0] == p[0] && low[1] == p[1] && low[2] == p[2] && low[3] == p[3]);
        assert(low[4] == p[4] && low[5] == p[5] && low[6] == p[6]);
    }
    if q.is_prefix_of(low) {
        assert(q =~= low.subrange(0, 8));
        assert forall|i: int| 0 <= i < 8 implies low[i] == #[trigger] q[i] by {
            assert(low.subrange(0, 8)[i] == low[i]);
        }
        assert(low[0] == q[0] && low[1] == q[1] && low[2] == q[2] && low[3] == q[3]);
        assert(low[4] == q[4] && low[5] == q[5] && low[6] == q[6] && low[7] == q[7]);
    }
    let b = bare@;
    if b.len() >= 7 && is_letter(b[0], 'h') && is_letter(b[1], 't') && is_letter(b[2], 't')
        && is_letter(b[3], 'p') {
        if b[4] == ':' && b[5] == '/' && b[6] == '/' {
            assert(p =~= low.subrange(0, 7));
        }
        if b.len() >= 8 && is_letter(b[4], 's') && b[5] == ':' && b[6] == '/' && b[7] == '/' {
            assert(q =~= low.subrange(0, 8));
        }
    }
}

/// A clicked link is opened exactly if it is http(s).
pub proof fn law_open_link(url: &str, http: bool, r: AppResult<()>)
    requires
        call_ensures(open_link, (url,), r),
        call_ensures(is_http_url, (url,), http),
    ensures
        r is Ok <==> http,
        r is Err ==> r->Err_0@ == "Only http(s) links can be opened."@,
{
}

} // verus!
