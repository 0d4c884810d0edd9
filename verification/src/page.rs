//! The files that the server hands to the browser.

use crate::address::{
    address_text, components, endpoint_text, has_certhash, is_address_text, is_plain,
    parsed_address, ComponentView,
};
use crate::text::{
    lemma_replaced_removes_pattern, may_begin_at, occurs, occurs_at, replace, replaced,
};
use libp2p::multiaddr::Multiaddr;
use vstd::prelude::*;
use vstd::utf8::{decode_utf8, valid_utf8};

verus! {

/// What the index page holds in place of the address of the server.
pub const ENDPOINT_PLACEHOLDER: &'static str = "__LIBP2P_ENDPOINT__";

/// The status of an answer for a file that does not exist.
pub const NOT_FOUND: u16 = 404;

/// The two kinds of answer.
#[derive(Debug, Clone, Copy, PartialEq, Eq, Structural)]
pub enum Page {
    /// The index page, see [`get_index`].
    Index,
    /// The file that the path names, see [`get_static_file`].
    StaticFile,
}

/// Which page is served on which route.
pub fn routes() -> (r: [(&'static str, Page); 3])
    ensures
        r@ == seq![
            ("/", Page::Index),
            ("/index.html", Page::Index),
            ("/:path", Page::StaticFile),
        ],
{
    let table: [(&'static str, Page); 3] = [
        ("/", Page::Index),
        ("/index.html", Page::Index),
        ("/:path", Page::StaticFile),
    ];
    assert(table@ =~= seq![
        ("/", Page::Index),
        ("/index.html", Page::Index),
        ("/:path", Page::StaticFile),
    ]);
    table
}

/// Calls `std::str::from_utf8`.
///
/// Trusted: a text comes out exactly where the bytes are valid UTF-8, and it is the one that they
/// encode.
#[verifier::external_body]
fn utf8_text(bytes: &[u8]) -> (r: Option<&str>)
    ensures
        match r {
            Some(text) => valid_utf8(bytes@) && text@ == decode_utf8(bytes@),
            None => !valid_utf8(bytes@),
        },
{
    std::str::from_utf8(bytes).ok()
}

/// The media type that `mime_guess` gives for a path on a platform. Platforms split paths in
/// different ways; `platform` numbers them.
pub uninterp spec fn guessed_media_type(path: Seq<char>, platform: int) -> Seq<char>;

/// Whether every platform splits a path alike. Some give a meaning of their own to a `\`, to a `:`
/// among the first two characters (a drive, a scheme) and to two leading `/` (a share, a device).
pub open spec fn is_portable(path: Seq<char>) -> bool {
    &&& !path.contains('\\')
    &&& forall|i: int| 0 <= i < 2 && i < path.len() ==> path[i] != ':'
    &&& !(path.len() >= 2 && path[0] == '/' && path[1] == '/')
}

/// Calls `mime_guess::from_path`, `first_or_octet_stream` and `to_string`.
///
/// Trusted: the media type depends on the path and on the platform, which decides where the file
/// name and its extension begin. A portable path has the same one on every platform, and a path
/// that holds no `.` has `application/octet-stream`. Which platform it is, is left unsaid.
#[verifier::external_body]
fn guess_media_type(path: &str) -> (r: String)
    ensures
        exists|platform: int| r@ == #[trigger] guessed_media_type(path@, platform),
        forall|platform: int|
            is_portable(path@) ==> r@ == #[trigger] guessed_media_type(path@, platform),
        !path@.contains('.') ==> r@ == "application/octet-stream"@,
{
    mime_guess::from_path(path).first_or_octet_stream().to_string()
}

/// The index page with the address of the server in place of the placeholder.
pub fn render_index(template: &str, endpoint: &str) -> (r: String)
    ensures
        r@ == replaced(template@, ENDPOINT_PLACEHOLDER@, endpoint@),
{
    proof {
        reveal_strlit("__LIBP2P_ENDPOINT__");
    }
    replace(template, ENDPOINT_PLACEHOLDER, endpoint)
}

/// Whether the placeholder is gone from every page with this address in its place: nowhere in the
/// text of the address may it begin. That holds where no certificate is named, whose digest could
/// happen to be written so, and where a peer comes last and the text does not hold it as a whole.
pub open spec fn fills_page(parts: Seq<ComponentView>) -> bool {
    parts.len() > 0 && {
        ||| forall|k: int| !may_begin_at(address_text(parts), ENDPOINT_PLACEHOLDER@, k)
        ||| is_plain(parts) && !has_certhash(parts)
        ||| parts.last() is P2p && !occurs(address_text(parts), ENDPOINT_PLACEHOLDER@)
    }
}

/// A page with the address of the server no longer holds the placeholder.
pub proof fn lemma_index_filled(template: Seq<char>, parts: Seq<ComponentView>)
    requires
        is_address_text(address_text(parts), parts),
        fills_page(parts),
    ensures
        !occurs(
            replaced(template, ENDPOINT_PLACEHOLDER@, address_text(parts)),
            ENDPOINT_PLACEHOLDER@,
        ),
{
    let text = address_text(parts);
    let pattern = ENDPOINT_PLACEHOLDER@;
    reveal_strlit("__LIBP2P_ENDPOINT__");
    assert(!pattern.contains('/'));
    assert forall|k: int| !may_begin_at(text, pattern, k) by {
        if may_begin_at(text, pattern, k) {
            assert(text[k + 0] == pattern[0]);
            assert(text.contains(text[k]));
            let slash = choose|i: int|
                0 <= i < text.len() && #[trigger] text[i] == '/' && forall|j: int|
                    i < j < text.len() ==> #[trigger] text[j] != '_';
            assert(text[slash] == '/' && k < slash);
            if slash - k < pattern.len() {
                assert(text[k + (slash - k)] == pattern[slash - k]);
                assert(pattern.contains(pattern[slash - k]));
            } else {
                assert forall|j: int| 0 <= j < pattern.len() implies text.subrange(
                    k,
                    k + pattern.len(),
                )[j] == pattern[j] by {
                    assert(text[k + j] == pattern[j]);
                }
                assert(text.subrange(k, k + pattern.len()) =~= pattern);
                assert(occurs_at(text, pattern, k));
            }
        }
    }
    lemma_replaced_removes_pattern(template, pattern, text);
}

/// Serves the index page for our client.
///
/// Our server listens on a random UDP port for the WebRTC transport.
/// To allow the client to connect, we replace the `__LIBP2P_ENDPOINT__` placeholder with the
/// actual address.
pub fn get_index(content: Option<&[u8]>, endpoint: &Multiaddr) -> (r: Result<String, u16>)
    requires
        content matches Some(bytes) ==> valid_utf8(bytes@),
    ensures
        match content {
            Some(bytes) => r matches Ok(html) && html@ == replaced(
                decode_utf8(bytes@),
                ENDPOINT_PLACEHOLDER@,
                address_text(components(*endpoint)),
            ),
            None => r == Err::<String, u16>(NOT_FOUND),
        },
        content is Some && is_plain(components(*endpoint)) ==> parsed_address(
            address_text(components(*endpoint)),
        ) == Some(components(*endpoint)),
        fills_page(components(*endpoint)) ==> (r matches Ok(html) ==> !occurs(
            html@,
            ENDPOINT_PLACEHOLDER@,
        )),
{
    match content {
        None => Err(NOT_FOUND),
        Some(bytes) => {
            let template = utf8_text(bytes).unwrap();
            let text = endpoint_text(endpoint);
            proof {
                if fills_page(components(*endpoint)) {
                    lemma_index_filled(template@, components(*endpoint));
                }
            }
            Ok(render_index(template, text.as_str()))
        },
    }
}

/// The answer to a request for a file: the file and its media type, or that there is none.
pub open spec fn file_answer(content: Option<Seq<u8>>, media_type: Seq<char>) -> Result<
    (Seq<char>, Seq<u8>),
    u16,
> {
    match content {
        Some(bytes) => Ok((media_type, bytes)),
        None => Err(NOT_FOUND),
    }
}

/// What a file holds.
pub open spec fn content_view(content: Option<Vec<u8>>) -> Option<Seq<u8>> {
    match content {
        Some(bytes) => Some(bytes@),
        None => None,
    }
}

/// What an answer says.
pub open spec fn answer_view(answer: Result<(String, Vec<u8>), u16>) -> Result<
    (Seq<char>, Seq<u8>),
    u16,
> {
    match answer {
        Ok((media_type, body)) => Ok((media_type@, body@)),
        Err(status) => Err(status),
    }
}

/// On any one platform the media type of an answer depends on the path alone: two files under the
/// same path have the same, whatever they hold.
pub proof fn lemma_media_type_ignores_content(
    path: Seq<char>,
    platform: int,
    one: Seq<u8>,
    other: Seq<u8>,
)
    ensures
        ({
            let media_type = guessed_media_type(path, platform);
            &&& file_answer(Some(one), media_type) matches Ok((first, body))
            &&& file_answer(Some(other), media_type) matches Ok((second, _))
            &&& first == second
            &&& body == one
        }),
{
}

/// A file is answered exactly with the media type and what it holds, and a file that does not exist
/// with the status 404; so whether there is an answer depends on the file alone.
pub proof fn lemma_file_answer(
    content: Option<Seq<u8>>,
    media_type: Seq<char>,
    shown: Seq<char>,
    body: Seq<u8>,
    status: u16,
)
    ensures
        file_answer(content, media_type) == Ok::<(Seq<char>, Seq<u8>), u16>((shown, body)) <==> shown
            == media_type && content == Some(body),
        file_answer(content, media_type) == Err::<(Seq<char>, Seq<u8>), u16>(status) <==> content
            is None && status == 404,
{
}

/// A path without a `\`, without a `:` and without two leading `/` is split alike everywhere.
pub proof fn lemma_ordinary_path_is_portable(path: Seq<char>)
    requires
        !path.contains('\\'),
        !path.contains(':'),
        !(path.len() >= 2 && path[0] == '/' && path[1] == '/'),
    ensures
        is_portable(path),
{
}

/// Answers with a file and its media type.
pub fn static_answer(content: Option<Vec<u8>>, media_type: String) -> (r: Result<
    (String, Vec<u8>),
    u16,
>)
    ensures
        answer_view(r) == file_answer(content_view(content), media_type@),
        match content {
            Some(bytes) => r == Ok::<(String, Vec<u8>), u16>((media_type, bytes)),
            None => r == Err::<(String, Vec<u8>), u16>(404u16),
        },
{
    match content {
        Some(bytes) => Ok((media_type, bytes)),
        None => Err(NOT_FOUND),
    }
}

/// Serves the static files generated by `wasm-pack`.
pub fn get_static_file(content: Option<Vec<u8>>, path: &str) -> (r: Result<(String, Vec<u8>), u16>)
    ensures
        exists|platform: int|
            answer_view(r) == file_answer(
                content_view(content),
                #[trigger] guessed_media_type(path@, platform),
            ),
        forall|platform: int|
            is_portable(path@) ==> answer_view(r) == file_answer(
                content_view(content),
                #[trigger] guessed_media_type(path@, platform),
            ),
        !path@.contains('.') ==> answer_view(r) == file_answer(
            content_view(content),
            "application/octet-stream"@,
        ),
        match content {
            Some(bytes) => r matches Ok((media_type, body)) && body == bytes && exists|
                platform: int,
            |
                media_type@ == #[trigger] guessed_media_type(path@, platform),
            None => r == Err::<(String, Vec<u8>), u16>(404u16),
        },
{
    static_answer(content, guess_media_type(path))
}

} // verus!
