//! Which embedded asset an HTTP request for a non-API path is answered with.

use vstd::prelude::*;
use vstd::string::*;

use crate::text::{has_prefix, starts_with, to_string};

verus! {

/// The MIME type that `mime_guess` gives for a path, by its extension.
pub uninterp spec fn mime_type_for_path(path: Seq<char>) -> Seq<char>;

/// `mime_guess::from_path(path).first_or_octet_stream()`, as text: the
/// MIME type registered for the path's extension. The contract names the
/// result and states only that a path without any `.` (so without an
/// extension) gets `application/octet-stream`; the table of extensions is
/// left unsaid.
#[verifier::external_body]
fn mime_type(path: &str) -> (r: String)
    ensures
        r@ == mime_type_for_path(path@),
        !path@.contains('.') ==> r@ == "application/octet-stream"@,
{
    mime_guess::from_path(path).first_or_octet_stream().as_ref().to_string()
}

/// How a request for a non-API path is answered.
#[derive(Clone, Debug)]
pub enum StaticReply {
    /// With the asset, labelled with `content_type`.
    Asset { content_type: String },
    /// With the app shell, `index.html`.
    AppShell,
    /// With "not found".
    NotFound,
}

/// How a request for the asset `path` is answered, given whether the asset
/// exists and the content type its path has.
pub open spec fn spec_static_reply(
    path: Seq<char>,
    found: bool,
    content_type: Seq<char>,
    r: StaticReply,
) -> bool {
    if found {
        r matches StaticReply::Asset { content_type: ct } && ct@ == content_type
    } else if !has_prefix(path, "api/"@) {
        r is AppShell
    } else {
        r is NotFound
    }
}

/// How a request for the asset `path` is answered, given whether the asset
/// exists and the content type of its path.
pub fn static_reply_with(path: &str, found: bool, content_type: String) -> (r: StaticReply)
    ensures
        spec_static_reply(path@, found, content_type@, r),
{
    if found {
        StaticReply::Asset { content_type }
    } else if serves_app_shell(path) {
        StaticReply::AppShell
    } else {
        StaticReply::NotFound
    }
}

/// How a request for the asset `path` is answered, given whether the asset
/// exists: the asset labelled with the MIME type of its path; else the app
/// shell, except under `api/`.
pub fn static_reply(path: &str, found: bool) -> (r: StaticReply)
    ensures
        spec_static_reply(path@, found, mime_type_for_path(path@), r),
{
    let content_type = if found {
        mime_type(path)
    } else {
        String::new()
    };
    static_reply_with(path, found, content_type)
}

/// `s.trim_start_matches('/')`.
pub open spec fn strip_leading_slashes(s: Seq<char>) -> Seq<char>
    decreases s.len(),
{
    if s.len() > 0 && s[0] == '/' {
        strip_leading_slashes(s.drop_first())
    } else {
        s
    }
}

/// The asset a request path names: the path without its leading slashes,
/// or `index.html` when nothing remains.
pub open spec fn spec_asset_path(uri_path: Seq<char>) -> Seq<char> {
    if strip_leading_slashes(uri_path).len() == 0 {
        "index.html"@
    } else {
        strip_leading_slashes(uri_path)
    }
}

/// Stripping leading slashes leaves a suffix of the path that follows only
/// slashes and does not itself begin with one.
pub proof fn lemma_strip_leading_slashes(s: Seq<char>)
    ensures
        exists|k: int|
            0 <= k <= s.len() && s.skip(k) == strip_leading_slashes(s) && (forall|i: int|
                0 <= i < k ==> #[trigger] s[i] == '/'),
        strip_leading_slashes(s).len() == 0 || strip_leading_slashes(s)[0] != '/',
    decreases s.len(),
{
    if s.len() > 0 && s[0] == '/' {
        lemma_strip_leading_slashes(s.drop_first());
        let k = choose|k: int|
            0 <= k <= s.drop_first().len() && s.drop_first().skip(k) == strip_leading_slashes(
                s.drop_first(),
            ) && (forall|i: int| 0 <= i < k ==> #[trigger] s.drop_first()[i] == '/');
        assert(s.skip(k + 1) =~= s.drop_first().skip(k));
        assert forall|i: int| 0 <= i < k + 1 implies #[trigger] s[i] == '/' by {
            if i > 0 {
                assert(s[i] == s.drop_first()[i - 1]);
            }
        }
    } else {
        assert(s.skip(0) =~= s);
    }
}

/// How requests are answered: an asset that exists is served with the
/// content type of its path; a missing asset under `api/` is "not found";
/// any other missing asset is answered with the app shell.
pub proof fn lemma_static_reply_cases(path: Seq<char>, found: bool, content_type: Seq<char>, r: StaticReply)
    requires
        spec_static_reply(path, found, content_type, r),
    ensures
        found ==> (r matches StaticReply::Asset { content_type: ct } && ct@ == content_type),
        !found && has_prefix(path, "api/"@) ==> r is NotFound,
        !found && !has_prefix(path, "api/"@) ==> r is AppShell,
{
}

/// The asset that the request path `uri_path` names.
pub fn asset_path(uri_path: &str) -> (r: String)
    ensures
        r@ == spec_asset_path(uri_path@),
{
    let n = uri_path.unicode_len();
    let mut i: usize = 0;
    assert(uri_path@.skip(0) =~= uri_path@);
    while i < n && uri_path.get_char(i) == '/'
        invariant
            n == uri_path@.len(),
            i <= n,
            strip_leading_slashes(uri_path@) == strip_leading_slashes(uri_path@.skip(i as int)),
        decreases n - i,
    {
        assert(uri_path@.skip(i as int).drop_first() =~= uri_path@.skip(i + 1));
        i = i + 1;
    }
    assert(i < n ==> uri_path@.skip(i as int)[0] == uri_path@[i as int]);
    if i == n {
        to_string("index.html")
    } else {
        let rest = uri_path.substring_char(i, n);
        assert(rest@ =~= uri_path@.skip(i as int));
        to_string(rest)
    }
}

/// Whether an unknown asset path is answered with the app shell
/// (`index.html`, so that client-side routes load the app) rather than
/// "not found": every path but those under `api/`.
pub fn serves_app_shell(path: &str) -> (r: bool)
    ensures
        r == !has_prefix(path@, "api/"@),
{
    !starts_with(path, "api/")
}

} // verus!
