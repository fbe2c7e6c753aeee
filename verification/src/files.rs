//! Names of received and staged files.

use crate::codec::{base64_decode, base64_decoding};
use crate::model::{
    outcome, AppResult, MAX_SENDER_PERSIST_BYTES, MAX_STAGED_FILE_SIZE,
};
use crate::text::{
    ascii_lowered, chars_of, decimal, decimal_text, law_trimmed_is_bare_stretch,
    lowered_is, opt_text, same_text, starts_with, trim, trimmed,
};
use vstd::prelude::*;

verus! {

/// Whether a character separates the parts of a path on some system.
pub open spec fn is_separator(c: char) -> bool {
    c == '/' || c == '\\'
}

/// What follows the last separator.
pub open spec fn last_segment(path: Seq<char>) -> Seq<char>
    decreases path.len(),
{
    if path.len() == 0 || is_separator(path.last()) {
        Seq::empty()
    } else {
        last_segment(path.drop_last()).push(path.last())
    }
}

/// Whether a name stands for no file of its own.
pub open spec fn is_degenerate(name: Seq<char>) -> bool {
    name.len() == 0 || name == "."@ || name == ".."@
}

/// The one path component that a peer-supplied file name is reduced to.
pub open spec fn sanitized(file_name: Seq<char>) -> Seq<char> {
    let last = trimmed(last_segment(file_name));
    if is_degenerate(last) {
        "received-file"@
    } else {
        last
    }
}

proof fn lemma_last_segment(path: Seq<char>, k: int)
    requires
        0 <= k <= path.len(),
        k == 0 || is_separator(path[k - 1]),
        forall|i: int| k <= i < path.len() ==> !is_separator(#[trigger] path[i]),
    ensures
        last_segment(path) == path.skip(k),
    decreases path.len() - k,
{
    if k < path.len() {
        let head = path.drop_last();
        assert forall|i: int| k <= i < head.len() implies !is_separator(#[trigger] head[i]) by {
            assert(head[i] == path[i]);
        }
        if k > 0 {
            assert(head[k - 1] == path[k - 1]);
        }
        lemma_last_segment(head, k);
        assert(!is_separator(path[path.len() - 1]));
        assert(head.skip(k).push(path.last()) =~= path.skip(k));
    } else {
        assert(path.skip(k) =~= Seq::empty());
        if path.len() > 0 {
            assert(path.last() == path[k - 1]);
        }
    }
}

/// Reduces a peer-supplied file name to a single path component.
///
/// Only what follows the last `/` or `\` is kept, without white space around
/// it. Where nothing is left, or only `.` or `..`, a fixed name takes its place.
pub fn sanitize_file_name(file_name: &str) -> (r: String)
    ensures
        r@ == sanitized(file_name@),
{
    let chars = chars_of(file_name);
    let n: usize = chars.len();
    let mut k: usize = n;
    while k > 0 && chars[k - 1] != '/' && chars[k - 1] != '\\'
        invariant
            k <= n,
            n == chars@.len(),
            forall|i: int| k <= i < n ==> !is_separator(#[trigger] chars@[i]),
        decreases k,
    {
        k = k - 1;
    }
    proof {
        lemma_last_segment(file_name@, k as int);
        assert(file_name@.subrange(k as int, n as int) =~= file_name@.skip(k as int));
    }
    let last = trim(file_name.substring_char(k, n));
    if last.is_empty() || same_text(last, ".") || same_text(last, "..") {
        "received-file".to_string()
    } else {
        last.to_string()
    }
}

/// Whether a name is a single path component: it holds no separator and is
/// neither empty nor `.` nor `..`.
pub open spec fn is_bare_name(name: Seq<char>) -> bool {
    &&& !is_degenerate(name)
    &&& forall|i: int| 0 <= i < name.len() ==> !is_separator(#[trigger] name[i])
}

proof fn lemma_last_segment_is_bare(path: Seq<char>)
    ensures
        forall|i: int|
            0 <= i < last_segment(path).len() ==> !is_separator(#[trigger] last_segment(path)[i]),
    decreases path.len(),
{
    if path.len() > 0 && !is_separator(path.last()) {
        lemma_last_segment_is_bare(path.drop_last());
        let head = last_segment(path.drop_last());
        assert forall|i: int| 0 <= i < last_segment(path).len() implies !is_separator(
            #[trigger] last_segment(path)[i],
        ) by {
            if i < head.len() {
                assert(last_segment(path)[i] == head[i]);
            }
        }
    }
}

/// Whatever name a peer sends, the sanitized one holds no path separator and is
/// neither empty nor `.` nor `..`.
pub proof fn law_sanitized_name_is_bare(file_name: Seq<char>)
    ensures
        is_bare_name(sanitized(file_name)),
{
    let seg = last_segment(file_name);
    lemma_last_segment_is_bare(file_name);
    law_trimmed_is_bare_stretch(seg);
    reveal_strlit("received-file");
    reveal_strlit(".");
    reveal_strlit("..");
    assert("received-file"@.len() == 13);
    assert("."@.len() == 1);
    assert(".."@.len() == 2);
    let (i, j) = choose|i: int, j: int|
        0 <= i <= j <= seg.len() && trimmed(seg) == #[trigger] seg.subrange(i, j);
    assert forall|k: int| 0 <= k < trimmed(seg).len() implies !is_separator(
        #[trigger] trimmed(seg)[k],
    ) by {
        assert(trimmed(seg)[k] == seg[i + k]);
    }
}

/// A bare name without white space around it is left as it is.
pub proof fn law_bare_name_is_kept(name: Seq<char>)
    requires
        is_bare_name(name),
        trimmed(name) == name,
    ensures
        sanitized(name) == name,
{
    lemma_last_segment(name, 0);
    assert(name.skip(0) =~= name);
}

/// Sanitizing a sanitized name changes nothing.
pub proof fn law_sanitizing_is_idempotent(file_name: Seq<char>)
    ensures
        sanitized(sanitized(file_name)) == sanitized(file_name),
{
    law_sanitized_name_is_bare(file_name);
    crate::text::law_trimmed_idempotent(last_segment(file_name));
    reveal_strlit("received-file");
    assert(trimmed("received-file"@) == "received-file"@);
    law_bare_name_is_kept(sanitized(file_name));
}

/// The place of the last `.`, or -1.
pub open spec fn last_dot(name: Seq<char>) -> int
    decreases name.len(),
{
    if name.len() == 0 {
        -1
    } else if name.last() == '.' {
        name.len() - 1
    } else {
        last_dot(name.drop_last())
    }
}

/// A file name without its extension. A name that only begins with a dot has
/// none.
pub open spec fn stem_of(name: Seq<char>) -> Seq<char> {
    if last_dot(name) > 0 {
        name.take(last_dot(name))
    } else {
        name
    }
}

/// What follows the last dot of a file name, unless that is its first character.
pub open spec fn extension_of(name: Seq<char>) -> Option<Seq<char>> {
    if last_dot(name) > 0 {
        Some(name.skip(last_dot(name) + 1))
    } else {
        None
    }
}

/// What follows the last `/` of a path.
pub open spec fn final_name(path: Seq<char>) -> Seq<char>
    decreases path.len(),
{
    if path.len() == 0 || path.last() == '/' {
        Seq::empty()
    } else {
        final_name(path.drop_last()).push(path.last())
    }
}

/// The last component of a path whose parts are separated as Windows does (`/` and
/// `\`) or as Unix does (`/` only). Separators and `.` at the end count for nothing,
/// and `..` is no name.
pub open spec fn component(path: Seq<char>, windows: bool) -> Option<Seq<char>>
    decreases path.len(),
{
    let last = if windows {
        last_segment(path)
    } else {
        final_name(path)
    };
    if path.len() == 0 {
        None
    } else if last.len() == 0 || last == "."@ {
        component(path.drop_last(), windows)
    } else if last == ".."@ {
        None
    } else {
        Some(last)
    }
}

/// Whether a path begins with a drive, such as `C:`.
pub open spec fn has_drive(path: Seq<char>) -> bool {
    &&& path.len() >= 2
    &&& 'a' <= path[0] <= 'z' || 'A' <= path[0] <= 'Z'
    &&& path[1] == ':'
}

/// Whether a path begins with two separators.
pub open spec fn begins_double(path: Seq<char>) -> bool {
    path.len() >= 2 && is_separator(path[0]) && is_separator(path[1])
}

/// The place of the first separator from `from` on, or the end of the path.
pub open spec fn next_separator(path: Seq<char>, from: int) -> int
    decreases path.len() - from,
{
    if from >= path.len() || is_separator(path[from]) {
        from
    } else {
        next_separator(path, from + 1)
    }
}

/// The place where the name of the server of a network path ends.
pub open spec fn server_end(path: Seq<char>) -> int {
    next_separator(path, 2)
}

/// The place where the name of the share of a network path ends.
pub open spec fn share_end(path: Seq<char>) -> int {
    next_separator(path, server_end(path) + 1)
}

/// Whether a path leads into a network share, such as `\\server\share\`. A server
/// named `?` or `.` is none: such paths mean something else on Windows.
pub open spec fn is_share_path(path: Seq<char>) -> bool {
    &&& begins_double(path)
    &&& 2 < server_end(path) < path.len()
    &&& server_end(path) + 1 < share_end(path) < path.len()
    &&& !(server_end(path) == 3 && (path[2] == '?' || path[2] == '.'))
}

/// Whether a path begins with two separators and yet leads into no network share.
pub open spec fn is_raw_path(path: Seq<char>) -> bool {
    begins_double(path) && !is_share_path(path)
}

/// A path without its drive or its share.
pub open spec fn without_prefix(path: Seq<char>) -> Seq<char> {
    if has_drive(path) {
        path.skip(2)
    } else if is_share_path(path) {
        path.skip(share_end(path))
    } else {
        path
    }
}

/// The file name of a path on Unix.
pub open spec fn unix_name(path: Seq<char>) -> Option<Seq<char>> {
    component(path, false)
}

/// The file name of a path on Windows, unless the path is raw.
pub open spec fn windows_name(path: Seq<char>) -> Option<Seq<char>> {
    component(without_prefix(path), true)
}

/// The stem of a file name, where there is one.
pub open spec fn stem_in(name: Option<Seq<char>>) -> Option<Seq<char>> {
    match name {
        Some(n) => Some(stem_of(n)),
        None => None,
    }
}

/// The extension of a file name, where there is one.
pub open spec fn extension_in(name: Option<Seq<char>>) -> Option<Seq<char>> {
    match name {
        Some(n) => extension_of(n),
        None => None,
    }
}

/// What a text is taken to be where there is none.
pub open spec fn or_file(name: Option<Seq<char>>) -> Seq<char> {
    match name {
        Some(n) => n,
        None => "file"@,
    }
}

/// What follows the last dot of a path.
pub open spec fn after_last_dot(path: Seq<char>) -> Seq<char> {
    path.skip(last_dot(path) + 1)
}

/// What follows the last `\` of a path.
pub open spec fn after_last_backslash(path: Seq<char>) -> Seq<char>
    decreases path.len(),
{
    if path.len() == 0 || path.last() == '\\' {
        Seq::empty()
    } else {
        after_last_backslash(path.drop_last()).push(path.last())
    }
}

/// Whether `name` is what follows the last `/`, the last `\` or the last of both.
pub open spec fn is_final_in(name: Seq<char>, path: Seq<char>) -> bool {
    ||| name == final_name(path)
    ||| name == last_segment(path)
    ||| name == after_last_backslash(path)
}

/// Whether `part` is a stretch of `whole`.
pub open spec fn is_stretch_of(part: Seq<char>, whole: Seq<char>) -> bool {
    exists|i: int, j: int| 0 <= i <= j <= whole.len() && part == #[trigger] whole.subrange(i, j)
}

/// Whether `extension` follows a dot in `path` and holds none itself.
pub open spec fn follows_a_dot(extension: Seq<char>, path: Seq<char>) -> bool {
    &&& exists|i: int, j: int|
        0 < i <= j <= path.len() && path[i - 1] == '.' && extension == #[trigger] path.subrange(i, j)
    &&& forall|k: int| 0 <= k < extension.len() ==> #[trigger] extension[k] != '.'
}

/// Calls `std::path::Path::file_stem`: the file name of a path up to its last dot,
/// or all of it where the only dot comes first. The file name is the one that Unix
/// or the one that Windows finds, as the program runs on the one or the other. Of a
/// raw path only that the stem is a part of it is stated.
#[verifier::external_body]
fn path_stem(path: &str) -> (r: Option<String>)
    ensures
        !is_raw_path(path@) ==> opt_text(r) == stem_in(unix_name(path@)) || opt_text(r) == stem_in(
            windows_name(path@),
        ),
        r matches Some(stem) ==> is_stretch_of(stem@, path@),
{
    std::path::Path::new(path).file_stem().and_then(|stem| stem.to_str()).map(|stem| stem.to_string())
}

/// Calls `std::path::Path::extension`: what follows the last dot of the file name of
/// a path, unless that dot comes first. The file name is the one that Unix or the
/// one that Windows finds, as the program runs on the one or the other. Of every
/// path, raw ones too, an extension follows a dot; and where something other than
/// `.` or `..` follows the last separator, the file name reaches to the end of the
/// path on both, so that the dot is the last of the path.
#[verifier::external_body]
fn path_extension(path: &str) -> (r: Option<String>)
    ensures
        !is_raw_path(path@) ==> opt_text(r) == extension_in(unix_name(path@)) || opt_text(r)
            == extension_in(windows_name(path@)),
        !is_degenerate(last_segment(path@)) && r is Some ==> opt_text(r) == Some(
            after_last_dot(path@),
        ),
        r matches Some(extension) ==> follows_a_dot(extension@, path@),
{
    std::path::Path::new(path).extension().and_then(|ext| ext.to_str()).map(|ext| ext.to_string())
}

/// Calls `std::path::Path::file_name`: the file name that Unix or the one that
/// Windows finds, as the program runs on the one or the other. Of a raw path it is a
/// part, and its end where something other than `.` or `..` follows the last
/// separator.
#[verifier::external_body]
fn path_file_name(path: &str) -> (r: Option<String>)
    ensures
        !is_raw_path(path@) ==> opt_text(r) == unix_name(path@) || opt_text(r) == windows_name(
            path@,
        ),
        is_raw_path(path@) && !is_degenerate(last_segment(path@)) && r is Some ==> is_final_in(
            r->Some_0@,
            path@,
        ),
        r matches Some(name) ==> is_stretch_of(name@, path@),
{
    std::path::Path::new(path).file_name().map(|name| name.to_string_lossy().to_string())
}

/// Whether a file at `path` may be announced to its receivers under `name`: the
/// file name that Unix or that Windows finds, or a stand-in where there is none.
pub open spec fn is_name_at(path: Seq<char>, name: Seq<char>) -> bool {
    &&& !is_raw_path(path) ==> name == or_file(unix_name(path)) || name == or_file(
        windows_name(path),
    )
    &&& is_raw_path(path) && !is_degenerate(last_segment(path)) ==> is_final_in(name, path) || name
        == "file"@
    &&& is_stretch_of(name, path) || name == "file"@
}

/// The name under which the file at `path` is announced to its receivers.
pub fn announced_file_name(path: &str) -> (r: String)
    ensures
        is_name_at(path@, r@),
{
    match path_file_name(path) {
        Some(name) => name,
        None => "file".to_string(),
    }
}

/// The extensions of inert files that a viewer opens: pictures, sound, video
/// and plain documents.
pub open spec fn is_inert_extension(extension: Seq<char>) -> bool {
    let e = ascii_lowered(extension);
    ||| e == "png"@ || e == "jpg"@ || e == "jpeg"@ || e == "gif"@ || e == "webp"@ || e == "bmp"@
    ||| e == "tif"@ || e == "tiff"@ || e == "heic"@ || e == "avif"@ || e == "ico"@
    ||| e == "mp4"@ || e == "m4v"@ || e == "mov"@ || e == "webm"@ || e == "mkv"@ || e == "avi"@
    ||| e == "mp3"@ || e == "wav"@ || e == "flac"@ || e == "ogg"@ || e == "m4a"@ || e == "aac"@
    ||| e == "pdf"@ || e == "txt"@ || e == "md"@ || e == "csv"@ || e == "log"@ || e == "rtf"@
    ||| e == "json"@ || e == "xml"@ || e == "yaml"@ || e == "yml"@
}

/// Whether a file with the given extension may be opened without being asked
/// for. One without an extension may not.
pub fn is_inert(extension: &Option<String>) -> (r: bool)
    ensures
        r == is_inert_in(opt_text(*extension)),
{
    match extension {
        None => false,
        Some(ext) => {
            let e = ext.as_str();
            lowered_is(e, "png") || lowered_is(e, "jpg") || lowered_is(e, "jpeg")
                || lowered_is(e, "gif") || lowered_is(e, "webp") || lowered_is(e, "bmp")
                || lowered_is(e, "tif") || lowered_is(e, "tiff") || lowered_is(e, "heic")
                || lowered_is(e, "avif") || lowered_is(e, "ico") || lowered_is(e, "mp4")
                || lowered_is(e, "m4v") || lowered_is(e, "mov") || lowered_is(e, "webm")
                || lowered_is(e, "mkv") || lowered_is(e, "avi") || lowered_is(e, "mp3")
                || lowered_is(e, "wav") || lowered_is(e, "flac") || lowered_is(e, "ogg")
                || lowered_is(e, "m4a") || lowered_is(e, "aac") || lowered_is(e, "pdf")
                || lowered_is(e, "txt") || lowered_is(e, "md") || lowered_is(e, "csv")
                || lowered_is(e, "log") || lowered_is(e, "rtf") || lowered_is(e, "json")
                || lowered_is(e, "xml") || lowered_is(e, "yaml") || lowered_is(e, "yml")
        },
    }
}

/// Whether a file with the given extension is inert. One without an extension is
/// not.
pub open spec fn is_inert_in(extension: Option<Seq<char>>) -> bool {
    extension matches Some(e) && is_inert_extension(e)
}

/// Whether `safe` is what Unix or Windows may say of opening the file at `path`
/// unasked: what the extension says that the one or the other finds. It is yes only
/// where what follows the last dot is inert, or, in a path that ends in a
/// separator, `.` or `..`, what follows some dot.
pub open spec fn is_verdict_on(path: Seq<char>, safe: bool) -> bool {
    &&& !is_raw_path(path) ==> safe == is_inert_in(extension_in(unix_name(path))) || safe
        == is_inert_in(extension_in(windows_name(path)))
    &&& !is_degenerate(last_segment(path)) && safe ==> is_inert_extension(after_last_dot(path))
    &&& safe ==> exists|e: Seq<char>| #[trigger] follows_a_dot(e, path) && is_inert_extension(e)
}

/// Whether a received file may be opened without being asked for: only if its
/// extension is that of an inert file, so that nothing is ever launched.
pub fn is_safe_to_auto_open(path: &str) -> (r: bool)
    ensures
        is_verdict_on(path@, r),
{
    let extension = path_extension(path);
    is_inert(&extension)
}

proof fn lemma_segments_without_backslash(path: Seq<char>)
    requires
        forall|i: int| 0 <= i < path.len() ==> #[trigger] path[i] != '\\',
    ensures
        last_segment(path) == final_name(path),
    decreases path.len(),
{
    if path.len() > 0 {
        let head = path.drop_last();
        assert forall|i: int| 0 <= i < head.len() implies #[trigger] head[i] != '\\' by {
            assert(head[i] == path[i]);
        }
        lemma_segments_without_backslash(head);
        assert(path[path.len() - 1] != '\\');
    }
}

/// Unix and Windows find the same file name in a path without backslashes, unless
/// it begins with a drive or with two separators.
pub proof fn law_ordinary_paths_are_alike(path: Seq<char>)
    requires
        forall|i: int| 0 <= i < path.len() ==> #[trigger] path[i] != '\\',
        !has_drive(path),
        !begins_double(path),
    ensures
        unix_name(path) == windows_name(path),
{
    lemma_components_alike(path);
}

proof fn lemma_components_alike(path: Seq<char>)
    requires
        forall|i: int| 0 <= i < path.len() ==> #[trigger] path[i] != '\\',
    ensures
        component(path, true) == component(path, false),
    decreases path.len(),
{
    lemma_segments_without_backslash(path);
    if path.len() > 0 {
        let head = path.drop_last();
        assert forall|i: int| 0 <= i < head.len() implies #[trigger] head[i] != '\\' by {
            assert(head[i] == path[i]);
        }
        lemma_components_alike(head);
    }
}

proof fn lemma_last_segment_is_end(path: Seq<char>)
    ensures
        last_segment(path).len() <= path.len(),
        last_segment(path) == path.skip(path.len() - last_segment(path).len()),
        last_segment(path).len() <= final_name(path).len() <= path.len(),
        final_name(path) == path.skip(path.len() - final_name(path).len()),
    decreases path.len(),
{
    if path.len() > 0 {
        let head = path.drop_last();
        lemma_last_segment_is_end(head);
        if !is_separator(path.last()) {
            assert(last_segment(path) =~= path.skip(path.len() - last_segment(path).len()));
        } else {
            assert(last_segment(path) =~= path.skip(path.len() as int));
        }
        if path.last() != '/' {
            assert(final_name(path) =~= path.skip(path.len() - final_name(path).len()));
        } else {
            assert(final_name(path) =~= path.skip(path.len() as int));
        }
    } else {
        assert(path.skip(0) =~= path);
    }
}

proof fn lemma_last_segment_of_rest(path: Seq<char>, k: int)
    requires
        0 <= k < path.len(),
        is_separator(path[k]),
    ensures
        last_segment(path.skip(k)) == last_segment(path),
    decreases path.len(),
{
    let rest = path.skip(k);
    assert(rest.last() == path.last());
    if k < path.len() - 1 && !is_separator(path.last()) {
        assert(path.drop_last().skip(k) =~= rest.drop_last());
        lemma_last_segment_of_rest(path.drop_last(), k);
    }
}

proof fn lemma_next_separator(path: Seq<char>, from: int)
    requires
        0 <= from,
    ensures
        next_separator(path, from) >= from,
        next_separator(path, from) < path.len() ==> is_separator(path[next_separator(path, from)]),
    decreases path.len() - from,
{
    if from < path.len() && !is_separator(path[from]) {
        lemma_next_separator(path, from + 1);
    }
}

/// A path that leads from the root of a drive or of a network share to a name with
/// an extension: Unix and Windows find the same extension, which follows the last
/// dot of the path.
pub proof fn law_extensions_on_drives_and_shares_are_alike(path: Seq<char>)
    requires
        (has_drive(path) && path.len() > 2 && is_separator(path[2])) || is_share_path(path),
        !is_degenerate(last_segment(path)),
        extension_of(last_segment(path)) is Some,
    ensures
        windows_name(path) == Some(last_segment(path)),
        extension_in(windows_name(path)) == Some(after_last_dot(path)),
        extension_in(unix_name(path)) == Some(after_last_dot(path)),
{
    reveal_strlit(".");
    reveal_strlit("..");
    let k: int = if has_drive(path) {
        2
    } else {
        share_end(path)
    };
    if !has_drive(path) {
        lemma_next_separator(path, 2);
        lemma_next_separator(path, server_end(path) + 1);
    }
    lemma_last_segment_of_rest(path, k);
    lemma_last_segment_is_end(path);
    let segment = last_segment(path);
    let name = final_name(path);
    lemma_last_dot(segment);
    lemma_last_dot(name);
    assert(path.skip(path.len() - segment.len()) =~= segment);
    lemma_last_dot_skip(path, path.len() - segment.len());
    assert(name.skip(name.len() - segment.len()) =~= segment);
    lemma_last_dot_skip(name, name.len() - segment.len());
    assert(segment.skip(last_dot(segment) + 1) =~= after_last_dot(path));
    assert(name.skip(last_dot(name) + 1) =~= after_last_dot(path));
    assert(name != "."@) by {
        if name == "."@ {
            assert(name.len() == 1);
            assert(segment =~= name);
        }
    }
    assert(name != ".."@) by {
        if name == ".."@ {
            assert(name.len() == 2);
            if segment.len() == 2 {
                assert(segment =~= name);
            } else {
                assert(segment[0] == name[1]);
                assert(segment =~= "."@);
            }
        }
    }
}

/// A file with an extension on a drive or in a network share is opened unasked
/// exactly if what follows the last dot of its path is inert.
pub proof fn law_files_on_drives_and_shares_are_judged_alike(path: Seq<char>, safe: bool)
    requires
        is_verdict_on(path, safe),
        (has_drive(path) && path.len() > 2 && is_separator(path[2])) || is_share_path(path),
        !is_degenerate(last_segment(path)),
        extension_of(last_segment(path)) is Some,
    ensures
        safe == is_inert_extension(after_last_dot(path)),
{
    law_extensions_on_drives_and_shares_are_alike(path);
}

/// The names under which a received file may be stored: its own, and then
/// numbered ones.
#[derive(Debug)]
pub struct DestinationNames {
    /// The file's own name, reduced to one path component.
    pub own: String,
    /// The name without its extension.
    pub stem: String,
    pub extension: Option<String>,
}

/// View of a [`DestinationNames`].
#[verifier::ext_equal]
pub struct NamesView {
    pub own: Seq<char>,
    pub stem: Seq<char>,
    pub extension: Option<Seq<char>>,
}

impl View for DestinationNames {
    type V = NamesView;

    open spec fn view(&self) -> NamesView {
        NamesView { own: self.own@, stem: self.stem@, extension: opt_text(self.extension) }
    }
}

/// Whether the names were taken from a name of one path component: its stem and its
/// extension, as Unix or as Windows takes it apart. They differ only where the name
/// begins as if it named a drive.
pub open spec fn names_for(names: NamesView, own: Seq<char>) -> bool {
    &&& names.own == own
    &&& names.stem == or_file(stem_in(unix_name(own))) || names.stem == or_file(
        stem_in(windows_name(own)),
    )
    &&& names.extension == extension_in(unix_name(own)) || names.extension == extension_in(
        windows_name(own),
    )
    &&& is_stretch_of(names.stem, own) || names.stem == "file"@
    &&& names.extension matches Some(e) ==> follows_a_dot(e, own) && e == after_last_dot(own)
}

/// The `counter`th name: the file's own, or one with the counter before the
/// extension.
pub open spec fn destination_name(names: NamesView, counter: nat) -> Seq<char> {
    if counter == 0 {
        names.own
    } else {
        let numbered = names.stem + " ("@ + decimal(counter) + ")"@;
        match names.extension {
            Some(e) => numbered + "."@ + e,
            None => numbered,
        }
    }
}

proof fn lemma_final_name_of_bare(name: Seq<char>)
    requires
        forall|i: int| 0 <= i < name.len() ==> !is_separator(#[trigger] name[i]),
    ensures
        final_name(name) == name,
    decreases name.len(),
{
    if name.len() > 0 {
        let head = name.drop_last();
        assert forall|i: int| 0 <= i < head.len() implies !is_separator(#[trigger] head[i]) by {
            assert(head[i] == name[i]);
        }
        lemma_final_name_of_bare(head);
        assert(!is_separator(name[name.len() - 1]));
        assert(head.push(name.last()) =~= name);
    } else {
        assert(final_name(name) =~= name);
    }
}

proof fn lemma_component_of_bare(name: Seq<char>, windows: bool)
    requires
        forall|i: int| 0 <= i < name.len() ==> !is_separator(#[trigger] name[i]),
    ensures
        component(name, windows) == if is_degenerate(name) {
            None
        } else {
            Some(name)
        },
{
    reveal_strlit(".");
    reveal_strlit("..");
    lemma_final_name_of_bare(name);
    lemma_last_segment(name, 0);
    assert(name.skip(0) =~= name);
    if name == "."@ {
        assert(name.drop_last().len() == 0);
        assert(component(name.drop_last(), windows) is None);
    }
}

/// A name of one path component is its own file name on Unix, and on Windows too,
/// unless it begins as if it named a drive: what follows the colon is the file name
/// there.
pub proof fn law_names_of_bare_names(name: Seq<char>)
    requires
        is_bare_name(name),
    ensures
        !is_raw_path(name),
        unix_name(name) == Some(name),
        windows_name(name) == if !has_drive(name) {
            Some(name)
        } else if is_degenerate(name.skip(2)) {
            None
        } else {
            Some(name.skip(2))
        },
{
    if name.len() >= 2 {
        assert(!is_separator(name[0]));
    }
    lemma_component_of_bare(name, false);
    lemma_component_of_bare(name, true);
    if has_drive(name) {
        let rest = name.skip(2);
        assert forall|i: int| 0 <= i < rest.len() implies !is_separator(#[trigger] rest[i]) by {
            assert(rest[i] == name[i + 2]);
        }
        lemma_component_of_bare(rest, true);
    }
}

/// The names under which a file of the given peer-supplied name may be stored.
fn destination_names(file_name: &str) -> (r: DestinationNames)
    ensures
        names_for(r@, sanitized(file_name@)),
{
    let own = sanitize_file_name(file_name);
    proof {
        law_sanitized_name_is_bare(file_name@);
        law_names_of_bare_names(own@);
        lemma_last_segment(own@, 0);
        assert(own@.skip(0) =~= own@);
    }
    let stem = match path_stem(own.as_str()) {
        Some(stem) => stem,
        None => "file".to_string(),
    };
    let extension = path_extension(own.as_str());
    DestinationNames { own, stem, extension }
}

/// The search for a name that is still free.
#[derive(Debug)]
pub struct Destination {
    pub names: DestinationNames,
    /// How many names were found taken.
    pub counter: u32,
}

/// The most names that a search may find taken.
pub const MAX_TAKEN_NAMES: u32 = 2_147_483_646;

/// Starts the search for a free name for a file of the given peer-supplied
/// name.
pub fn available_destination(file_name: &str) -> (r: Destination)
    ensures
        names_for(r.names@, sanitized(file_name@)),
        r.counter == 0,
{
    Destination { names: destination_names(file_name), counter: 0 }
}

impl Destination {
    /// The name to try now.
    pub fn candidate(&self) -> (r: String)
        ensures
            r@ == destination_name(self.names@, self.counter as nat),
    {
        if self.counter == 0 {
            return self.names.own.clone();
        }
        let number = decimal_text(self.counter);
        let numbered = self.names.stem.clone().concat(" (").concat(number.as_str()).concat(")");
        match &self.names.extension {
            Some(ext) => numbered.concat(".").concat(ext.as_str()),
            None => numbered,
        }
    }

    /// Goes on to the next name, the one tried being taken.
    pub fn taken(&mut self)
        requires
            old(self).counter < MAX_TAKEN_NAMES,
        ensures
            final(self).names@ == old(self).names@,
            final(self).counter == old(self).counter + 1,
    {
        self.counter = self.counter + 1;
    }
}

proof fn lemma_stretch_is_bare(part: Seq<char>, whole: Seq<char>)
    requires
        is_stretch_of(part, whole),
        forall|i: int| 0 <= i < whole.len() ==> !is_separator(#[trigger] whole[i]),
    ensures
        forall|i: int| 0 <= i < part.len() ==> !is_separator(#[trigger] part[i]),
{
    let (i, j) = choose|i: int, j: int|
        0 <= i <= j <= whole.len() && part == #[trigger] whole.subrange(i, j);
    assert forall|k: int| 0 <= k < part.len() implies !is_separator(#[trigger] part[k]) by {
        assert(part[k] == whole[i + k]);
    }
}

proof fn lemma_decimal_digits(n: nat)
    ensures
        decimal(n).len() > 0,
        forall|i: int| 0 <= i < decimal(n).len() ==> '0' <= #[trigger] decimal(n)[i] <= '9',
    decreases n,
{
    if n >= 10 {
        lemma_decimal_digits(n / 10);
    }
}

proof fn lemma_decimal_injective(m: nat, n: nat)
    requires
        decimal(m) == decimal(n),
    ensures
        m == n,
    decreases m,
{
    lemma_decimal_digits(m / 10);
    lemma_decimal_digits(n / 10);
    assert(decimal(m).last() == (48 + m % 10) as char);
    assert(decimal(n).last() == (48 + n % 10) as char);
    assert(m % 10 == n % 10);
    if m >= 10 {
        assert(decimal(m).len() > 1);
        assert(n >= 10);
        assert(decimal(m).drop_last() =~= decimal(m / 10));
        assert(decimal(n).drop_last() =~= decimal(n / 10));
        lemma_decimal_injective(m / 10, n / 10);
    } else {
        assert(decimal(m).len() == 1);
        assert(n < 10);
    }
}

/// Whatever name a peer sends, every name tried for its file is a single path
/// component, neither empty nor `.` nor `..`.
pub proof fn law_destinations_are_bare(names: NamesView, file_name: Seq<char>, counter: nat)
    requires
        names_for(names, sanitized(file_name)),
    ensures
        is_bare_name(destination_name(names, counter)),
{
    law_sanitized_name_is_bare(file_name);
    if counter > 0 {
        let own = names.own;
        let name = destination_name(names, counter);
        reveal_strlit("file");
        reveal_strlit(" (");
        reveal_strlit(")");
        reveal_strlit(".");
        reveal_strlit("..");
        lemma_decimal_digits(counter);
        if is_stretch_of(names.stem, own) {
            lemma_stretch_is_bare(names.stem, own);
        }
        if let Some(e) = names.extension {
            let (i, j) = choose|i: int, j: int|
                0 < i <= j <= own.len() && own[i - 1] == '.' && e == #[trigger] own.subrange(i, j);
            assert(e == own.subrange(i, j));
            lemma_stretch_is_bare(e, own);
        }
        let numbered = names.stem + " ("@ + decimal(counter) + ")"@;
        assert forall|i: int| 0 <= i < numbered.len() implies !is_separator(
            #[trigger] numbered[i],
        ) by {
            let a = names.stem.len() as int;
            let b = decimal(counter).len() as int;
            if i < a {
                assert(numbered[i] == names.stem[i]);
            } else if a + 2 <= i < a + 2 + b {
                assert(numbered[i] == decimal(counter)[i - a - 2]);
            }
        }
        assert forall|i: int| 0 <= i < name.len() implies !is_separator(#[trigger] name[i]) by {
            if i < numbered.len() {
                assert(name[i] == numbered[i]);
            } else if i > numbered.len() {
                assert(name[i] == names.extension->Some_0[i - numbered.len() - 1]);
            }
        }
        assert(name.len() > 2);
    }
}

/// No numbered name is tried twice.
pub proof fn law_numbered_names_differ(names: NamesView, m: nat, n: nat)
    requires
        0 < m,
        0 < n,
        m != n,
    ensures
        destination_name(names, m) != destination_name(names, n),
{
    let x = destination_name(names, m);
    let y = destination_name(names, n);
    if x == y {
        let a = names.stem.len() as int;
        let tail = match names.extension {
            Some(e) => ")"@ + "."@ + e,
            None => ")"@,
        };
        let head = names.stem + " ("@;
        assert(x =~= head + decimal(m) + tail);
        assert(y =~= head + decimal(n) + tail);
        let dm = x.subrange(head.len() as int, x.len() - tail.len());
        let dn = y.subrange(head.len() as int, y.len() - tail.len());
        assert(dm =~= decimal(m));
        assert(dn =~= decimal(n));
        lemma_decimal_injective(m, n);
    }
}

proof fn lemma_last_dot(name: Seq<char>)
    ensures
        -1 <= last_dot(name) < name.len(),
        last_dot(name) >= 0 ==> name[last_dot(name)] == '.',
    decreases name.len(),
{
    if name.len() > 0 && name.last() != '.' {
        lemma_last_dot(name.drop_last());
    }
}

proof fn lemma_last_dot_skip(name: Seq<char>, n: int)
    requires
        0 <= n <= name.len(),
        last_dot(name.skip(n)) >= 0,
    ensures
        last_dot(name) == last_dot(name.skip(n)) + n,
    decreases name.len(),
{
    let rest = name.skip(n);
    assert(rest.len() > 0);
    assert(rest.last() == name.last());
    if name.last() != '.' {
        assert(rest.drop_last() =~= name.drop_last().skip(n));
        lemma_last_dot_skip(name.drop_last(), n);
    }
}

/// No numbered name is the file's own.
pub proof fn law_numbered_name_is_not_own(names: NamesView, own: Seq<char>, counter: nat)
    requires
        is_bare_name(own),
        names_for(names, own),
        counter > 0,
    ensures
        destination_name(names, counter) != names.own,
{
    let name = destination_name(names, counter);
    lemma_last_dot(own);
    lemma_decimal_digits(counter);
    law_names_of_bare_names(own);
    reveal_strlit(" (");
    reveal_strlit(")");
    reveal_strlit(".");
    reveal_strlit("..");
    reveal_strlit("file");
    if has_drive(own) {
        let rest = own.skip(2);
        lemma_last_dot(rest);
        if names.stem == stem_of(own) {
            if last_dot(own) > 0 {
                assert(name[names.stem.len() as int] == ' ');
                assert(own[names.stem.len() as int] == '.');
            } else {
                assert(name.len() > own.len());
            }
        } else if is_degenerate(rest) {
            assert(own.len() <= 4);
            assert(name.len() > 4);
        } else if last_dot(rest) > 0 {
            lemma_last_dot_skip(own, 2);
            assert(names.extension is Some);
            assert(name.len() > own.len());
        } else {
            assert(name.len() > own.len());
        }
    } else {
        assert(name.len() > own.len());
    }
}

/// No two names of a search are the same.
pub proof fn law_names_of_a_search_differ(names: NamesView, file_name: Seq<char>, m: nat, n: nat)
    requires
        names_for(names, sanitized(file_name)),
        m != n,
    ensures
        destination_name(names, m) != destination_name(names, n),
{
    law_sanitized_name_is_bare(file_name);
    if m == 0 {
        law_numbered_name_is_not_own(names, sanitized(file_name), n);
    } else if n == 0 {
        law_numbered_name_is_not_own(names, sanitized(file_name), m);
    } else {
        law_numbered_names_differ(names, m, n);
    }
}

/// How many names a search has found taken that has gone on from `counter` by at
/// most `steps` names, each time because the name it tried was taken.
pub open spec fn searched(
    names: NamesView,
    taken: Set<Seq<char>>,
    counter: nat,
    steps: nat,
) -> nat
    decreases steps,
{
    if steps == 0 || !taken.contains(destination_name(names, counter)) {
        counter
    } else {
        searched(names, taken, counter + 1, (steps - 1) as nat)
    }
}

/// Whether the `k`th name of a search is free and all before it are taken.
pub open spec fn is_first_free(names: NamesView, taken: Set<Seq<char>>, k: nat) -> bool {
    &&& !taken.contains(destination_name(names, k))
    &&& forall|j: nat| j < k ==> taken.contains(#[trigger] destination_name(names, j))
}

proof fn lemma_searched(names: NamesView, taken: Set<Seq<char>>, counter: nat, steps: nat)
    requires
        forall|j: nat| j < counter ==> taken.contains(#[trigger] destination_name(names, j)),
    ensures
        counter <= searched(names, taken, counter, steps) <= counter + steps,
        forall|j: nat|
            j < searched(names, taken, counter, steps) ==> taken.contains(
                #[trigger] destination_name(names, j),
            ),
        searched(names, taken, counter, steps) < counter + steps ==> !taken.contains(
            destination_name(names, searched(names, taken, counter, steps)),
        ),
    decreases steps,
{
    if steps > 0 && taken.contains(destination_name(names, counter)) {
        lemma_searched(names, taken, counter + 1, (steps - 1) as nat);
    }
}

proof fn lemma_taken_names_are_counted(
    names: NamesView,
    file_name: Seq<char>,
    taken: Set<Seq<char>>,
    n: nat,
)
    requires
        names_for(names, sanitized(file_name)),
        taken.finite(),
        forall|j: nat| j < n ==> taken.contains(#[trigger] destination_name(names, j)),
    ensures
        n <= taken.len(),
    decreases n,
{
    if n > 0 {
        let last = (n - 1) as nat;
        let rest = taken.remove(destination_name(names, last));
        assert forall|j: nat| j < last implies rest.contains(
            #[trigger] destination_name(names, j),
        ) by {
            law_names_of_a_search_differ(names, file_name, j, last);
        }
        lemma_taken_names_are_counted(names, file_name, rest, last);
        assert(taken.contains(destination_name(names, last)));
    }
}

/// A search ends: whatever names are taken, it goes on at most once for each of
/// them, and the name it comes to is the first that is free.
pub proof fn law_search_takes_the_first_free_name(
    names: NamesView,
    file_name: Seq<char>,
    taken: Set<Seq<char>>,
)
    requires
        names_for(names, sanitized(file_name)),
        taken.finite(),
    ensures
        is_first_free(names, taken, searched(names, taken, 0, taken.len())),
        searched(names, taken, 0, taken.len()) <= taken.len(),
{
    let n = taken.len();
    lemma_searched(names, taken, 0, n);
    let k = searched(names, taken, 0, n);
    if taken.contains(destination_name(names, k)) {
        assert(k == n);
        assert forall|j: nat| j < n + 1 implies taken.contains(
            #[trigger] destination_name(names, j),
        ) by {}
        lemma_taken_names_are_counted(names, file_name, taken, n + 1);
    }
}

/// Only one name of a search is the first that is free.
pub proof fn law_first_free_name_is_unique(names: NamesView, taken: Set<Seq<char>>, j: nat, k: nat)
    requires
        is_first_free(names, taken, j),
        is_first_free(names, taken, k),
    ensures
        j == k,
{
    if j < k {
        assert(taken.contains(destination_name(names, j)));
    } else if k < j {
        assert(taken.contains(destination_name(names, k)));
    }
}

/// Two transfers never claim one name: whatever they are called and whatever else
/// is taken in between, a search that begins when the name found by an earlier one
/// is taken ends at another name.
pub proof fn law_two_searches_do_not_collide(
    earlier: NamesView,
    taken: Set<Seq<char>>,
    first: nat,
    later: NamesView,
    taken_later: Set<Seq<char>>,
    second: nat,
)
    requires
        is_first_free(earlier, taken, first),
        taken.subset_of(taken_later),
        taken_later.contains(destination_name(earlier, first)),
        is_first_free(later, taken_later, second),
    ensures
        destination_name(earlier, first) != destination_name(later, second),
        !taken.contains(destination_name(later, second)),
{
}

/// The prefix of the names of staged files.
pub const STAGE_PREFIX: &'static str = "simplepass-stage-";

/// Whether a character may stand in a staging id.
pub open spec fn is_id_char(c: char) -> bool {
    'a' <= c <= 'z' || 'A' <= c <= 'Z' || '0' <= c <= '9' || c == '-'
}

/// Whether a staging id is safe to make a file name of.
pub open spec fn is_staging_id(id: Seq<char>) -> bool {
    id.len() > 0 && forall|i: int| 0 <= i < id.len() ==> is_id_char(#[trigger] id[i])
}

/// The name, inside the temporary directory, of the file that a session stages.
pub open spec fn staged_name(session_id: Seq<char>) -> Result<Seq<char>, Seq<char>> {
    if is_staging_id(session_id) {
        Ok(STAGE_PREFIX@ + session_id)
    } else {
        Err("Invalid staging id."@)
    }
}

/// The name, inside the temporary directory, of the file that a session stages.
/// The id is held to letters, digits and hyphens, so that the file can neither
/// leave that directory nor be mistaken for another.
pub fn staged_file_path(session_id: &str) -> (r: AppResult<String>)
    ensures
        outcome(r) == staged_name(session_id@),
{
    let id = chars_of(session_id);
    if id.len() == 0 {
        return Err("Invalid staging id.".to_string());
    }
    let mut i: usize = 0;
    while i < id.len()
        invariant
            i <= id@.len(),
            id@ == session_id@,
            forall|k: int| 0 <= k < i ==> is_id_char(#[trigger] id@[k]),
        decreases id@.len() - i,
    {
        let c: char = id[i];
        let fits: bool = ('a' <= c && c <= 'z') || ('A' <= c && c <= 'Z') || ('0' <= c && c <= '9')
            || c == '-';
        if !fits {
            assert(!is_id_char(session_id@[i as int]));
            return Err("Invalid staging id.".to_string());
        }
        i = i + 1;
    }
    Ok(STAGE_PREFIX.to_string().concat(session_id))
}

/// Whether a file in the temporary directory was staged by this program. After
/// a restart no session knows it any more, so it can go.
pub fn is_staged_file(name: &str) -> (r: bool)
    ensures
        r == STAGE_PREFIX@.is_prefix_of(name@),
{
    starts_with(name, STAGE_PREFIX)
}

/// Bytes to be added to a staged file.
#[derive(Debug)]
pub struct StagedChunk {
    /// The file's name inside the temporary directory.
    pub name: String,
    pub bytes: Vec<u8>,
}

/// Takes one base64 chunk of a file that a session stages.
pub fn stage_file_chunk(session_id: &str, data: &str) -> (r: AppResult<StagedChunk>)
    ensures
        match staged_name(session_id@) {
            Ok(name) => match base64_decoding(data@) {
                Ok(bytes) => r is Ok && r->Ok_0.name@ == name && r->Ok_0.bytes@ == bytes,
                Err(complaint) => r is Err && r->Err_0@ == complaint,
            },
            Err(complaint) => r is Err && r->Err_0@ == complaint,
        },
{
    let name = staged_file_path(session_id)?;
    let bytes = base64_decode(data)?;
    Ok(StagedChunk { name, bytes })
}

/// Whether a staged file that has grown to `size` bytes may stay. One that has
/// grown too large is deleted.
pub fn check_staged_size(size: u64) -> (r: AppResult<()>)
    ensures
        outcome(r) == if size > MAX_STAGED_FILE_SIZE {
            Err::<(), Seq<char>>("The staged file is too large."@)
        } else {
            Ok(())
        },
{
    if size > MAX_STAGED_FILE_SIZE {
        Err("The staged file is too large.".to_string())
    } else {
        Ok(())
    }
}

/// Whether the sender keeps a durable copy of a staged file of `size` bytes.
pub fn keeps_sender_copy(size: u64) -> (r: bool)
    ensures
        r == (size <= MAX_SENDER_PERSIST_BYTES),
{
    size <= MAX_SENDER_PERSIST_BYTES
}

/// Every file that a session stages is recognised as one that was staged, and
/// is named by one path component.
pub proof fn law_staged_files_are_recognised(session_id: Seq<char>)
    requires
        staged_name(session_id) is Ok,
    ensures
        STAGE_PREFIX@.is_prefix_of(staged_name(session_id)->Ok_0),
        is_bare_name(staged_name(session_id)->Ok_0),
{
    let name = staged_name(session_id)->Ok_0;
    reveal_strlit("simplepass-stage-");
    reveal_strlit(".");
    reveal_strlit("..");
    let p = STAGE_PREFIX@;
    assert(p =~= name.subrange(0, p.len() as int));
    assert forall|i: int| 0 <= i < name.len() implies !is_separator(#[trigger] name[i]) by {
        if i >= p.len() {
            assert(name[i] == session_id[i - p.len()]);
        }
    }
}

/// Different sessions stage different files.
pub proof fn law_staged_files_differ(a: Seq<char>, b: Seq<char>)
    requires
        staged_name(a) is Ok,
        staged_name(a) == staged_name(b),
    ensures
        a == b,
{
    let name = STAGE_PREFIX@ + a;
    assert(name.skip(STAGE_PREFIX@.len() as int) =~= a);
    assert((STAGE_PREFIX@ + b).skip(STAGE_PREFIX@.len() as int) =~= b);
}

/// A peer-supplied name is reduced to what follows its last separator, the stretch from
/// `k` on, without the white space around it; where that is nothing, `.` or `..`, a fixed
/// name takes its place.
pub proof fn law_sanitize_file_name(
    file_name: &str,
    k: int,
    segment: &str,
    bare: &str,
    r: String,
)
    requires
        call_ensures(sanitize_file_name, (file_name,), r),
        0 <= k <= file_name@.len(),
        k == 0 || file_name@[k - 1] == '/' || file_name@[k - 1] == '\\',
        forall|i: int|
            k <= i < file_name@.len() ==> #[trigger] file_name@[i] != '/' && file_name@[i] != '\\',
        segment@ == file_name@.subrange(k, file_name@.len() as int),
        call_ensures(trim, (segment,), bare),
    ensures
        bare@.len() == 0 || bare@ == "."@ || bare@ == ".."@ ==> r@ == "received-file"@,
        !(bare@.len() == 0 || bare@ == "."@ || bare@ == ".."@) ==> r@ == bare@,
{
    lemma_last_segment(file_name@, k);
    assert(file_name@.skip(k) =~= segment@);
}

/// Whatever name a peer sends, what is kept of it has no separator and is neither empty
/// nor `.` nor `..`, so that its file stays in the directory it is put in.
pub proof fn law_kept_name_stays_in_its_directory(file_name: &str, r: String)
    requires
        call_ensures(sanitize_file_name, (file_name,), r),
    ensures
        r@.len() > 0 && r@ != "."@ && r@ != ".."@,
        forall|i: int| 0 <= i < r@.len() ==> #[trigger] r@[i] != '/' && r@[i] != '\\',
{
    law_sanitized_name_is_bare(file_name@);
    assert forall|i: int| 0 <= i < r@.len() implies #[trigger] r@[i] != '/' && r@[i] != '\\' by {
        assert(!is_separator(r@[i]));
    }
}

/// An extension is that of an inert file exactly if, whatever its case, it is one of
/// those of pictures, sound, video and plain documents; a file without one is not inert.
pub proof fn law_is_inert(extension: &Option<String>, r: bool)
    requires
        call_ensures(is_inert, (extension,), r),
    ensures
        extension is None ==> !r,
        extension matches Some(ext) ==> (r <==> {
            let e = ascii_lowered(ext@);
            ||| e == "avif"@ || e == "bmp"@ || e == "gif"@ || e == "heic"@ || e == "ico"@
            ||| e == "jpeg"@ || e == "jpg"@ || e == "png"@ || e == "tif"@ || e == "tiff"@
            ||| e == "webp"@
            ||| e == "aac"@ || e == "flac"@ || e == "m4a"@ || e == "mp3"@ || e == "ogg"@
            ||| e == "wav"@
            ||| e == "avi"@ || e == "m4v"@ || e == "mkv"@ || e == "mov"@ || e == "mp4"@
            ||| e == "webm"@
            ||| e == "csv"@ || e == "json"@ || e == "log"@ || e == "md"@ || e == "pdf"@
            ||| e == "rtf"@ || e == "txt"@ || e == "xml"@ || e == "yaml"@ || e == "yml"@
        }),
{
}

proof fn lemma_suffix_is_in_segment(path: Seq<char>, n: int)
    requires
        0 <= n <= path.len(),
        forall|k: int| n <= k < path.len() ==> !is_separator(#[trigger] path[k]),
    ensures
        last_segment(path).len() >= path.len() - n,
    decreases path.len(),
{
    if n < path.len() {
        let head = path.drop_last();
        assert forall|k: int| n <= k < head.len() implies !is_separator(#[trigger] head[k]) by {
            assert(head[k] == path[k]);
        }
        assert(!is_separator(path[path.len() - 1]));
        lemma_suffix_is_in_segment(head, n);
    }
}

proof fn lemma_last_dot_is(path: Seq<char>, d: int)
    requires
        0 <= d < path.len(),
        path[d] == '.',
        forall|k: int| d < k < path.len() ==> #[trigger] path[k] != '.',
    ensures
        last_dot(path) == d,
    decreases path.len(),
{
    if path.last() != '.' {
        let head = path.drop_last();
        assert forall|k: int| d < k < head.len() implies #[trigger] head[k] != '.' by {
            assert(head[k] == path[k]);
        }
        lemma_last_dot_is(head, d);
    } else {
        assert(path[path.len() - 1] == '.');
    }
}

proof fn lemma_no_dot(path: Seq<char>)
    requires
        forall|k: int| 0 < k < path.len() ==> #[trigger] path[k] != '.',
    ensures
        last_dot(path) <= 0,
    decreases path.len(),
{
    if path.len() > 0 {
        let head = path.drop_last();
        assert forall|k: int| 0 < k < head.len() implies #[trigger] head[k] != '.' by {
            assert(head[k] == path[k]);
        }
        lemma_no_dot(head);
        if path.len() > 1 {
            assert(path[path.len() - 1] != '.');
        }
    }
}

/// Whether Unix and Windows read a path alike: it has no backslash and begins neither as
/// a drive nor with two separators.
pub open spec fn is_plain_path(path: Seq<char>) -> bool {
    &&& forall|i: int| 0 <= i < path.len() ==> #[trigger] path[i] != '\\'
    &&& !(path.len() >= 2 && path[1] == ':')
    &&& !(path.len() >= 2 && path[0] == '/' && path[1] == '/')
}

/// A file is opened unasked exactly if its extension is that of an inert file: what
/// follows the last dot of its name, the one at `d`, in a plain path, on a drive or in a
/// network share.
pub proof fn law_extension_decides(
    path: &str,
    d: int,
    extension: &Option<String>,
    inert: bool,
    r: bool,
)
    requires
        call_ensures(is_safe_to_auto_open, (path,), r),
        is_plain_path(path@) || (has_drive(path@) && path@.len() > 2 && is_separator(path@[2]))
            || is_share_path(path@),
        0 < d < path@.len(),
        path@[d] == '.',
        path@[d - 1] != '/' && path@[d - 1] != '\\',
        d == path@.len() - 1 ==> path@[d - 1] != '.',
        forall|k: int|
            d < k < path@.len() ==> #[trigger] path@[k] != '.' && path@[k] != '/' && path@[k]
                != '\\',
        *extension matches Some(e) && e@ == path@.subrange(d + 1, path@.len() as int),
        call_ensures(is_inert, (extension,), inert),
    ensures
        r == inert,
{
    let p = path@;
    let segment = last_segment(p);
    reveal_strlit(".");
    reveal_strlit("..");
    assert forall|k: int| d - 1 <= k < p.len() implies !is_separator(#[trigger] p[k]) by {}
    lemma_suffix_is_in_segment(p, d - 1);
    lemma_last_segment_is_end(p);
    lemma_last_dot_is(p, d);
    let n = p.len() - segment.len();
    assert(segment[d - n] == p[d]);
    assert forall|k: int| d - n < k < segment.len() implies #[trigger] segment[k] != '.' by {
        assert(segment[k] == p[k + n]);
    }
    lemma_last_dot_is(segment, d - n);
    assert(segment.len() >= 2);
    assert(segment != ".."@) by {
        assert(segment[d - n - 1] == p[d - 1]);
    }
    assert(after_last_dot(p) =~= p.subrange(d + 1, p.len() as int));
    if is_plain_path(p) {
        law_ordinary_paths_are_alike(p);
        lemma_segments_without_backslash(p);
        assert(segment.skip(d - n + 1) =~= after_last_dot(p));
        assert(unix_name(p) == Some(segment));
    } else {
        law_files_on_drives_and_shares_are_judged_alike(p, r);
    }
}

/// A file in a plain path whose name, the stretch from `n` on, has no dot but perhaps in
/// front is never opened unasked.
pub proof fn law_file_without_extension_is_not_opened(path: &str, n: int, r: bool)
    requires
        call_ensures(is_safe_to_auto_open, (path,), r),
        is_plain_path(path@),
        0 <= n < path@.len(),
        n == 0 || path@[n - 1] == '/',
        forall|k: int| n <= k < path@.len() ==> #[trigger] path@[k] != '/',
        forall|k: int| n < k < path@.len() ==> #[trigger] path@[k] != '.',
        path@.len() - n > 1 || path@[n] != '.',
    ensures
        !r,
{
    let p = path@;
    reveal_strlit(".");
    reveal_strlit("..");
    assert forall|k: int| n <= k < p.len() implies !is_separator(#[trigger] p[k]) by {}
    lemma_last_segment(p, n);
    let segment = last_segment(p);
    assert forall|k: int| 0 < k < segment.len() implies #[trigger] segment[k] != '.' by {
        assert(segment[k] == p[k + n]);
    }
    lemma_no_dot(segment);
    law_ordinary_paths_are_alike(p);
    lemma_segments_without_backslash(p);
    assert(segment[0] == p[n]);
    assert(segment != "."@ && segment != ".."@) by {
        if segment == ".."@ {
            assert(segment[1] == '.');
        }
    }
    assert(unix_name(p) == Some(segment));
}

pub(crate) proof fn lemma_name_in_plain_path(p: Seq<char>, n: int)
    requires
        is_plain_path(p),
        0 <= n < p.len(),
        n == 0 || p[n - 1] == '/',
        forall|k: int| n <= k < p.len() ==> #[trigger] p[k] != '/',
        p.subrange(n, p.len() as int) != "."@,
        p.subrange(n, p.len() as int) != ".."@,
    ensures
        !is_raw_path(p),
        unix_name(p) == Some(p.subrange(n, p.len() as int)),
        windows_name(p) == unix_name(p),
{
    assert forall|k: int| n <= k < p.len() implies !is_separator(#[trigger] p[k]) by {}
    lemma_last_segment(p, n);
    assert(p.skip(n) =~= p.subrange(n, p.len() as int));
    law_ordinary_paths_are_alike(p);
    lemma_segments_without_backslash(p);
    assert(unix_name(p) == Some(last_segment(p)));
}

/// A file in a plain path is announced under its name, the stretch from `n` on.
pub proof fn law_announced_file_name(path: &str, n: int, r: String)
    requires
        call_ensures(announced_file_name, (path,), r),
        is_plain_path(path@),
        0 <= n < path@.len(),
        n == 0 || path@[n - 1] == '/',
        forall|k: int| n <= k < path@.len() ==> #[trigger] path@[k] != '/',
        path@.subrange(n, path@.len() as int) != "."@,
        path@.subrange(n, path@.len() as int) != ".."@,
    ensures
        r@ == path@.subrange(n, path@.len() as int),
{
    lemma_name_in_plain_path(path@, n);
}

/// A separator at the end of a plain path makes no difference: the file is announced under
/// the same name, and judged by the same extension.
pub proof fn law_separator_at_the_end_is_passed_over(
    path: &str,
    longer: &str,
    name: String,
    same_name: String,
    safe: bool,
    as_safe: bool,
)
    requires
        path@.len() > 0,
        is_plain_path(path@),
        is_plain_path(longer@),
        longer@ == path@.push('/'),
        call_ensures(announced_file_name, (path,), name),
        call_ensures(announced_file_name, (longer,), same_name),
        call_ensures(is_safe_to_auto_open, (path,), safe),
        call_ensures(is_safe_to_auto_open, (longer,), as_safe),
    ensures
        name@ == same_name@,
        safe == as_safe,
{
    assert(longer@.drop_last() =~= path@);
    law_ordinary_paths_are_alike(path@);
    law_ordinary_paths_are_alike(longer@);
    assert(final_name(longer@).len() == 0);
    assert(unix_name(longer@) == unix_name(path@));
}

/// A plain path that is empty, or whose last part is `..`, names no file: one sent from
/// there is announced as "file" and never opened unasked.
pub proof fn law_path_without_a_name(path: &str, n: int, name: String, safe: bool)
    requires
        is_plain_path(path@),
        0 <= n <= path@.len(),
        n == 0 || path@[n - 1] == '/',
        path@.len() == 0 || path@.subrange(n, path@.len() as int) == ".."@,
        call_ensures(announced_file_name, (path,), name),
        call_ensures(is_safe_to_auto_open, (path,), safe),
    ensures
        name@ == "file"@,
        !safe,
{
    let p = path@;
    law_ordinary_paths_are_alike(p);
    if p.len() > 0 {
        reveal_strlit(".");
        reveal_strlit("..");
        let tail = p.subrange(n, p.len() as int);
        assert(tail.len() == 2 && tail[0] == '.' && tail[1] == '.');
        assert forall|k: int| n <= k < p.len() implies !is_separator(#[trigger] p[k]) by {
            assert(p[k] == tail[k - n]);
        }
        lemma_last_segment(p, n);
        assert(p.skip(n) =~= tail);
        lemma_segments_without_backslash(p);
    }
}

/// A search begins with the name that is kept of the one sent, and goes on by one name
/// each time the one tried is taken.
pub proof fn law_search_begins_with_the_name_kept(
    file_name: &str,
    bare: String,
    start: Destination,
    search: &Destination,
    first: String,
    next: &mut Destination,
)
    requires
        call_ensures(sanitize_file_name, (file_name,), bare),
        call_ensures(available_destination, (file_name,), start),
        *search == start,
        call_ensures(Destination::candidate, (search,), first),
        call_ensures(Destination::taken, (next,), ()),
    ensures
        first@ == bare@,
        final(next).counter == old(next).counter + 1,
        final(next).names@ == old(next).names@,
{
}

/// The name tried after `n` were taken carries that number, in brackets, before the
/// extension: what follows the last dot of the name kept, the one at `d`, unless the name
/// begins as a drive does.
pub proof fn law_numbered_candidate(
    file_name: &str,
    bare: String,
    start: Destination,
    search: &Destination,
    d: int,
    number: String,
    r: String,
)
    requires
        call_ensures(sanitize_file_name, (file_name,), bare),
        call_ensures(available_destination, (file_name,), start),
        search.names == start.names,
        search.counter > 0,
        call_ensures(decimal_text, (search.counter,), number),
        call_ensures(Destination::candidate, (search,), r),
        !(bare@.len() >= 2 && bare@[1] == ':'),
        0 < d < bare@.len(),
        bare@[d] == '.',
        forall|k: int| d < k < bare@.len() ==> #[trigger] bare@[k] != '.',
    ensures
        r@ == bare@.subrange(0, d) + " ("@ + number@ + ")"@ + "."@ + bare@.subrange(
            d + 1,
            bare@.len() as int,
        ),
{
    law_sanitized_name_is_bare(file_name@);
    law_names_of_bare_names(bare@);
    lemma_last_dot_is(bare@, d);
    assert(bare@.take(d) =~= bare@.subrange(0, d));
    assert(bare@.skip(d + 1) =~= bare@.subrange(d + 1, bare@.len() as int));
}

/// The name tried after `n` were taken carries that number, in brackets, at its end where
/// the name kept has no dot but perhaps in front, unless it begins as a drive does.
pub proof fn law_numbered_candidate_without_extension(
    file_name: &str,
    bare: String,
    start: Destination,
    search: &Destination,
    number: String,
    r: String,
)
    requires
        call_ensures(sanitize_file_name, (file_name,), bare),
        call_ensures(available_destination, (file_name,), start),
        search.names == start.names,
        search.counter > 0,
        call_ensures(decimal_text, (search.counter,), number),
        call_ensures(Destination::candidate, (search,), r),
        !(bare@.len() >= 2 && bare@[1] == ':'),
        forall|k: int| 0 < k < bare@.len() ==> #[trigger] bare@[k] != '.',
    ensures
        r@ == bare@ + " ("@ + number@ + ")"@,
{
    law_sanitized_name_is_bare(file_name@);
    law_names_of_bare_names(bare@);
    lemma_no_dot(bare@);
}

/// A session stages a file exactly if its id is made of letters, digits and hyphens, and
/// there is at least one; the file is then named after the id. It is recognised as a
/// staged file.
pub proof fn law_staged_file_path(session_id: &str, r: AppResult<String>, name: &str, staged: bool)
    requires
        call_ensures(staged_file_path, (session_id,), r),
        r matches Ok(path) ==> name@ == path@,
        call_ensures(is_staged_file, (name,), staged),
    ensures
        r is Ok <==> session_id@.len() > 0 && forall|i: int|
            0 <= i < session_id@.len() ==> {
                let c = #[trigger] session_id@[i];
                'a' <= c <= 'z' || 'A' <= c <= 'Z' || '0' <= c <= '9' || c == '-'
            },
        r matches Ok(path) ==> path@ == "simplepass-stage-"@ + session_id@,
        r is Ok ==> staged,
        r is Err ==> r->Err_0@ == "Invalid staging id."@,
{
    if r is Ok {
        let whole = "simplepass-stage-"@ + session_id@;
        assert(whole.subrange(0, "simplepass-stage-"@.len() as int) =~= "simplepass-stage-"@);
        assert forall|i: int| 0 <= i < session_id@.len() implies {
            let c = #[trigger] session_id@[i];
            'a' <= c <= 'z' || 'A' <= c <= 'Z' || '0' <= c <= '9' || c == '-'
        } by {
            assert(is_id_char(session_id@[i]));
        }
    } else if session_id@.len() > 0 {
        let i = choose|i: int| 0 <= i < session_id@.len() && !is_id_char(#[trigger] session_id@[i]);
        assert(!is_id_char(session_id@[i]));
    }
}

/// A chunk is staged as the bytes that it encodes, in the file of its session.
pub proof fn law_stage_file_chunk(
    session_id: &str,
    data: &str,
    name: AppResult<String>,
    decoded: Result<Vec<u8>, String>,
    r: AppResult<StagedChunk>,
)
    requires
        call_ensures(stage_file_chunk, (session_id, data), r),
        call_ensures(staged_file_path, (session_id,), name),
        call_ensures(base64_decode, (data,), decoded),
    ensures
        r is Ok <==> name is Ok && decoded is Ok,
        r is Ok ==> r->Ok_0.name@ == name->Ok_0@ && r->Ok_0.bytes@ == decoded->Ok_0@,
{
}

/// A staged file may grow to 2 GiB, and its sender keeps a copy of one of up to 10 MiB.
pub proof fn law_staged_sizes(size: u64, r: AppResult<()>, kept: bool)
    requires
        call_ensures(check_staged_size, (size,), r),
        call_ensures(keeps_sender_copy, (size,), kept),
    ensures
        r is Ok <==> size <= 2_147_483_648,
        kept <==> size <= 10_485_760,
{
}

} // verus!
