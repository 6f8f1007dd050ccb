//! Markdown import previews: source metadata, path normalization, checklist items,
//! coordinator-id anchors, stable identities and unresolved relative links.
//! Source paths are provenance strings only; nothing here reads them.
use vstd::prelude::*;

use crate::crypto::{hex_encode, hex_text, sha256, sha256_digest};
use crate::error::{bad_request_view, forbidden_view, AppError, ErrorView};
use crate::text::{
    alphanumeric, char_is_alphanumeric, chars_eq, chars_match_at, chars_of,
    find_char, find_chars, find_from, find_seq, has_prefix, is_ascii_alnum,
    join_chars, join_seq, lemma_find_from, slice_chars, split_chars, split_seq, string_from_chars,
    trim, trim_chars, trim_start, utf8, utf8_len, views, words, words_of,
};
use crate::validation::{bounded_message, bounded_ok, check_bounded};

verus! {

pub const MAX_CHUNKS: usize = 32;

pub const MAX_SOURCE_BYTES: usize = 204800;

pub const MAX_ITEMS: usize = 200;

/// Import text: at most `max` bytes, no NUL, nonempty when required.
pub fn bounded(value: &str, name: &str, max: usize, required: bool) -> (r: Result<(), AppError>)
    ensures
        r is Ok <==> bounded_ok(value@, max as nat, required),
        r matches Err(e) ==> e@ == bad_request_view(bounded_message(name@, max as nat, required)),
{
    check_bounded(value, name, max, required)
}

/// Only a human operator may apply imported records.
pub fn human(actor: &crate::auth::Actor) -> (r: Result<(), AppError>)
    ensures
        r is Ok <==> actor.kind@ == "human"@,
        r matches Err(e) ==> e@ == forbidden_view("A human operator must apply imported records."@),
{
    if !crate::text::str_eq(actor.kind.as_str(), "human") {
        return Err(AppError::forbidden("A human operator must apply imported records."));
    }
    Ok(())
}

/// `s` with every backslash turned into a slash.
pub open spec fn slashes(s: Seq<char>) -> Seq<char> {
    Seq::new(s.len(), |i: int| if s[i] == '\\' { '/' } else { s[i] })
}

fn slashes_of(v: &Vec<char>) -> (r: Vec<char>)
    ensures
        r@ == slashes(v@),
{
    let mut r: Vec<char> = Vec::new();
    let mut i: usize = 0;
    while i < v.len()
        invariant
            i <= v.len(),
            r.len() == i,
            forall|k: int| 0 <= k < i ==> r@[k] == (if v@[k] == '\\' { '/' } else { v@[k] }),
        decreases v.len() - i,
    {
        if v[i] == '\\' {
            r.push('/');
        } else {
            r.push(v[i]);
        }
        i = i + 1;
    }
    assert(r@ =~= slashes(v@));
    r
}

/// The path segments that remain after dropping empty and `.` segments.
pub open spec fn kept_parts(parts: Seq<Seq<char>>) -> Seq<Seq<char>>
    decreases parts.len(),
{
    if parts.len() == 0 {
        seq![]
    } else {
        let prev = kept_parts(parts.drop_last());
        let p = parts.last();
        if p.len() == 0 || p == seq!['.'] {
            prev
        } else {
            prev.push(p)
        }
    }
}

pub open spec fn traversal_message() -> Seq<char> {
    "Source paths must be relative metadata paths without parent traversal."@
}

/// A source path as provenance metadata: relative, no `..`, `/`-separated, without empty
/// or `.` segments, and no drive-like first segment.
pub open spec fn normalize_path_result(v: Seq<char>) -> Result<Seq<char>, ErrorView> {
    let s = slashes(v);
    let parts = split_seq(s, '/');
    let kept = kept_parts(parts);
    if !bounded_ok(v, 512, true) {
        Err(bad_request_view(bounded_message("source path"@, 512, true)))
    } else if (s.len() > 0 && s[0] == '/') || parts.contains(seq!['.', '.']) {
        Err(bad_request_view(traversal_message()))
    } else if kept.len() == 0 || kept[0].contains(':') {
        Err(bad_request_view("Source path metadata is invalid."@))
    } else {
        Ok(join_seq(kept, seq!['/']))
    }
}

fn dot_dot() -> (r: Vec<char>)
    ensures
        r@ == seq!['.', '.'],
{
    let mut r = Vec::new();
    r.push('.');
    r.push('.');
    r
}

pub fn normalize_path(value: &str) -> (r: Result<String, AppError>)
    ensures
        match normalize_path_result(value@) {
            Ok(p) => (r matches Ok(s) && s@ == p),
            Err(v) => (r matches Err(e) && e@ == v),
        },
{
    check_bounded(value, "source path", 512, true)?;
    let s = slashes_of(&chars_of(value));
    let parts = split_chars(&s, '/');
    let dd = dot_dot();
    let mut i: usize = 0;
    let mut traversal = s.len() > 0 && s[0] == '/';
    while i < parts.len()
        invariant
            i <= parts.len(),
            dd@ == seq!['.', '.'],
            traversal == ((s@.len() > 0 && s@[0] == '/') || views(parts@).subrange(0, i as int).contains(dd@)),
        decreases parts.len() - i,
    {
        let ghost pre = views(parts@).subrange(0, i as int);
        let ghost next = views(parts@).subrange(0, i + 1);
        assert(next =~= pre.push(parts@[i as int]@));
        if chars_eq(&parts[i], &dd) {
            assert(next[i as int] == dd@);
            traversal = true;
        } else {
            assert(pre.contains(dd@) ==> next.contains(dd@)) by {
                if pre.contains(dd@) {
                    let k = choose|k: int| 0 <= k < pre.len() && pre[k] == dd@;
                    assert(next[k] == dd@);
                }
            }
            assert(next.contains(dd@) ==> pre.contains(dd@)) by {
                if next.contains(dd@) {
                    let k = choose|k: int| 0 <= k < next.len() && next[k] == dd@;
                    assert(k < i);
                    assert(pre[k] == dd@);
                }
            }
        }
        i = i + 1;
    }
    assert(views(parts@).subrange(0, parts@.len() as int) =~= views(parts@));
    if traversal {
        return Err(
            AppError::bad_request(
                "Source paths must be relative metadata paths without parent traversal.",
            ),
        );
    }
    let mut kept: Vec<Vec<char>> = Vec::new();
    let mut j: usize = 0;
    while j < parts.len()
        invariant
            j <= parts.len(),
            views(kept@) == kept_parts(views(parts@).subrange(0, j as int)),
        decreases parts.len() - j,
    {
        assert(views(parts@).subrange(0, j + 1).drop_last() =~= views(parts@).subrange(0, j as int));
        assert(views(parts@).subrange(0, j + 1).last() == parts@[j as int]@);
        let p = &parts[j];
        let dot = p.len() == 1 && p[0] == '.';
        assert(dot == (p@ == seq!['.'])) by {
            if p@.len() == 1 && p@[0] == '.' {
                assert(p@ =~= seq!['.']);
            }
        }
        if p.len() != 0 && !dot {
            let ghost before = kept@;
            kept.push(p.clone());
            assert(views(kept@) =~= views(before).push(p@));
        }
        j = j + 1;
    }
    if kept.len() == 0 || find_char(&kept[0], ':').is_some() {
        proof {
            if kept.len() > 0 {
                crate::text::lemma_first_index(kept@[0]@, ':');
            }
        }
        return Err(AppError::bad_request("Source path metadata is invalid."));
    }
    proof {
        crate::text::lemma_first_index(kept@[0]@, ':');
    }
    let mut sep: Vec<char> = Vec::new();
    sep.push('/');
    assert(sep@ =~= seq!['/']);
    Ok(string_from_chars(&join_chars(&kept, &sep)))
}

/// `char::to_ascii_lowercase`.
pub open spec fn ascii_lower(c: char) -> char {
    if 'A' <= c && c <= 'Z' {
        ((c as u8) + 32) as char
    } else {
        c
    }
}

/// An alphanumeric character lowercased, anything else a space.
pub open spec fn identity_char(c: char) -> char {
    if alphanumeric(c) {
        ascii_lower(c)
    } else {
        ' '
    }
}

/// Title text reduced to lowercase words separated by single spaces.
pub open spec fn normalize_identity(v: Seq<char>) -> Seq<char> {
    join_seq(words(Seq::new(v.len(), |i: int| identity_char(v[i]))), seq![' '])
}

fn identity_char_of(c: char) -> (r: char)
    ensures
        r == identity_char(c),
{
    if char_is_alphanumeric(c) {
        if 'A' <= c && c <= 'Z' {
            ((c as u8) + 32) as char
        } else {
            c
        }
    } else {
        ' '
    }
}

pub fn normalize_identity_text(value: &str) -> (r: String)
    ensures
        r@ == normalize_identity(value@),
{
    let v = chars_of(value);
    let mut mapped: Vec<char> = Vec::new();
    let mut i: usize = 0;
    while i < v.len()
        invariant
            i <= v.len(),
            mapped.len() == i,
            forall|k: int| 0 <= k < i ==> mapped@[k] == identity_char(v@[k]),
        decreases v.len() - i,
    {
        mapped.push(identity_char_of(v[i]));
        i = i + 1;
    }
    assert(mapped@ =~= Seq::new(v@.len(), |k: int| identity_char(v@[k])));
    let ws = words_of(&mapped);
    let mut sep: Vec<char> = Vec::new();
    sep.push(' ');
    assert(sep@ =~= seq![' ']);
    string_from_chars(&join_chars(&ws, &sep))
}

/// The bytes hashed for a stable identity: each part's UTF-8 bytes followed by a NUL.
pub open spec fn identity_bytes(
    context: Seq<char>,
    path: Seq<char>,
    section: Seq<char>,
    anchor: Seq<char>,
) -> Seq<u8> {
    utf8(context) + seq![0u8] + utf8(path) + seq![0u8] + utf8(section) + seq![0u8] + utf8(anchor)
        + seq![0u8]
}

/// A stable identity: the hex SHA-256 of the NUL-terminated context, path, section and anchor.
pub open spec fn identity_of(
    context: Seq<char>,
    path: Seq<char>,
    section: Seq<char>,
    anchor: Seq<char>,
) -> Seq<char> {
    hex_text(sha256_digest(identity_bytes(context, path, section, anchor)))
}

fn push_part(bytes: &mut Vec<u8>, part: &str)
    ensures
        final(bytes)@ == old(bytes)@ + utf8(part@) + seq![0u8],
{
    let b = part.as_bytes();
    let ghost start = bytes@;
    let mut i: usize = 0;
    while i < b.len()
        invariant
            i <= b.len(),
            b@ == utf8(part@),
            bytes@ == start + b@.subrange(0, i as int),
        decreases b.len() - i,
    {
        bytes.push(b[i]);
        assert(b@.subrange(0, i + 1) =~= b@.subrange(0, i as int).push(b@[i as int]));
        i = i + 1;
    }
    assert(b@.subrange(0, b@.len() as int) =~= b@);
    bytes.push(0u8);
}

pub fn stable_identity(context: &str, path: &str, section: &str, anchor: &str) -> (r: String)
    ensures
        r@ == identity_of(context@, path@, section@, anchor@),
{
    let mut bytes: Vec<u8> = Vec::new();
    push_part(&mut bytes, context);
    push_part(&mut bytes, path);
    push_part(&mut bytes, section);
    push_part(&mut bytes, anchor);
    assert(bytes@ =~= identity_bytes(context@, path@, section@, anchor@));
    let digest = sha256(bytes.as_slice());
    hex_encode(digest.as_slice())
}

pub open spec fn anchor_marker() -> Seq<char> {
    "<!-- coordinator-id:"@
}

pub open spec fn comment_close() -> Seq<char> {
    "-->"@
}

pub open spec fn anchor_char(c: char) -> bool {
    is_ascii_alnum(c) || c == '-' || c == '_' || c == '.'
}

/// The id of the first `<!-- coordinator-id: ... -->` marker: nonempty, at most 128 bytes
/// of letters, digits, `-`, `_` and `.`.
pub open spec fn explicit_anchor_spec(line: Seq<char>) -> Option<Seq<char>> {
    match find_seq(line, anchor_marker()) {
        None => None,
        Some(i) => {
            let start = i + anchor_marker().len();
            match find_from(line, comment_close(), start) {
                None => None,
                Some(end) => {
                    let value = trim(line.subrange(start, end));
                    if value.len() > 0 && utf8_len(value) <= 128 && (forall|k: int|
                        0 <= k < value.len() ==> anchor_char(#[trigger] value[k])) {
                        Some(value)
                    } else {
                        None
                    }
                },
            }
        },
    }
}

fn anchor_chars_ok(v: &Vec<char>) -> (r: bool)
    ensures
        r == (forall|k: int| 0 <= k < v@.len() ==> anchor_char(#[trigger] v@[k])),
{
    let mut i: usize = 0;
    while i < v.len()
        invariant
            i <= v.len(),
            forall|k: int| 0 <= k < i ==> anchor_char(#[trigger] v@[k]),
        decreases v.len() - i,
    {
        let c = v[i];
        if !(('0' <= c && c <= '9') || ('a' <= c && c <= 'z') || ('A' <= c && c <= 'Z') || c == '-'
            || c == '_' || c == '.') {
            assert(!anchor_char(v@[i as int]));
            return false;
        }
        i = i + 1;
    }
    true
}

fn explicit_anchor_chars(line: &Vec<char>) -> (r: Option<Vec<char>>)
    ensures
        match explicit_anchor_spec(line@) {
            Some(a) => (r matches Some(v) && v@ == a),
            None => r is None,
        },
{
    let marker = chars_of("<!-- coordinator-id:");
    let close = chars_of("-->");
    let n = line.len();
    let i = match find_chars(line, &marker, 0) {
        None => {
            return None;
        },
        Some(i) => i,
    };
    proof {
        lemma_find_from(line@, marker@, 0);
    }
    let start = i + marker.len();
    let end = match find_chars(line, &close, start) {
        None => {
            return None;
        },
        Some(e) => e,
    };
    proof {
        lemma_find_from(line@, close@, start as int);
    }
    let value = trim_chars(&slice_chars(line, start, end));
    let text = string_from_chars(&value);
    if value.len() > 0 && crate::text::byte_len(text.as_str()) <= 128 && anchor_chars_ok(&value) {
        Some(value)
    } else {
        None
    }
}

pub fn explicit_anchor(line: &str) -> (r: Option<String>)
    ensures
        match explicit_anchor_spec(line@) {
            Some(a) => (r matches Some(s) && s@ == a),
            None => r is None,
        },
{
    match explicit_anchor_chars(&chars_of(line)) {
        Some(v) => Some(string_from_chars(&v)),
        None => None,
    }
}

/// A Markdown checklist line: after leading whitespace, `- ` or `* `, then `[ ]` (open)
/// or `[x]`/`[X]` (closed), then a space; gives whether it is closed and the rest.
pub open spec fn checklist_spec(line: Seq<char>) -> Option<(bool, Seq<char>)> {
    let t = trim_start(line);
    if t.len() >= 6 && (t[0] == '-' || t[0] == '*') && t[1] == ' ' && t[2] == '[' && (t[3] == ' '
        || t[3] == 'x' || t[3] == 'X') && t[4] == ']' && t[5] == ' ' {
        Some((t[3] != ' ', t.subrange(6, t.len() as int)))
    } else {
        None
    }
}

fn checklist_chars(line: &Vec<char>) -> (r: Option<(bool, Vec<char>)>)
    ensures
        match checklist_spec(line@) {
            Some((closed, rest)) => (r matches Some(p) && p.0 == closed && p.1@ == rest),
            None => r is None,
        },
{
    let start = crate::text::leading_whitespace(line);
    let t = slice_chars(line, start, line.len());
    if t.len() >= 6 && (t[0] == '-' || t[0] == '*') && t[1] == ' ' && t[2] == '[' && (t[3] == ' '
        || t[3] == 'x' || t[3] == 'X') && t[4] == ']' && t[5] == ' ' {
        Some((t[3] != ' ', slice_chars(&t, 6, t.len())))
    } else {
        None
    }
}

pub fn checklist(line: &str) -> (r: Option<(bool, String)>)
    ensures
        match checklist_spec(line@) {
            Some((closed, rest)) => (r matches Some(p) && p.0 == closed && p.1@ == rest),
            None => r is None,
        },
{
    match checklist_chars(&chars_of(line)) {
        Some((closed, rest)) => Some((closed, string_from_chars(&rest))),
        None => None,
    }
}


pub open spec fn strip_char_start(s: Seq<char>, c: char) -> Seq<char>
    decreases s.len(),
{
    if s.len() > 0 && s[0] == c {
        strip_char_start(s.drop_first(), c)
    } else {
        s
    }
}

pub open spec fn strip_char_end(s: Seq<char>, c: char) -> Seq<char>
    decreases s.len(),
{
    if s.len() > 0 && s.last() == c {
        strip_char_end(s.drop_last(), c)
    } else {
        s
    }
}

/// `str::trim_matches(c)`: `s` without leading and trailing copies of `c`.
pub open spec fn strip_char(s: Seq<char>, c: char) -> Seq<char> {
    strip_char_end(strip_char_start(s, c), c)
}

fn strip_char_of(v: &Vec<char>, c: char) -> (r: Vec<char>)
    ensures
        r@ == strip_char(v@, c),
{
    let mut start: usize = 0;
    assert(v@.subrange(0, v.len() as int) =~= v@);
    while start < v.len() && v[start] == c
        invariant
            start <= v.len(),
            strip_char_start(v@, c) == strip_char_start(v@.subrange(start as int, v.len() as int), c),
        decreases v.len() - start,
    {
        let ghost u = v@.subrange(start as int, v.len() as int);
        assert(u.drop_first() =~= v@.subrange(start + 1, v.len() as int));
        start = start + 1;
    }
    let ghost t = v@.subrange(start as int, v.len() as int);
    let mut end: usize = v.len();
    while end > start && v[end - 1] == c
        invariant
            start <= end <= v.len(),
            t == v@.subrange(start as int, v.len() as int),
            strip_char_end(t, c) == strip_char_end(v@.subrange(start as int, end as int), c),
        decreases end,
    {
        let ghost u = v@.subrange(start as int, end as int);
        assert(u.drop_last() =~= v@.subrange(start as int, end - 1));
        end = end - 1;
    }
    slice_chars(v, start, end)
}

/// A checklist title: the text before any coordinator-id marker, trimmed, without
/// surrounding `~` and `*`, trimmed again.
pub open spec fn clean_title_spec(v: Seq<char>) -> Seq<char> {
    let before = match find_seq(v, anchor_marker()) {
        Some(i) => v.subrange(0, i),
        None => v,
    };
    trim(strip_char(strip_char(trim(before), '~'), '*'))
}

fn clean_title_chars(v: &Vec<char>) -> (r: Vec<char>)
    ensures
        r@ == clean_title_spec(v@),
{
    let marker = chars_of("<!-- coordinator-id:");
    let before = match find_chars(v, &marker, 0) {
        Some(i) => {
            proof {
                lemma_find_from(v@, marker@, 0);
            }
            slice_chars(v, 0, i)
        },
        None => v.clone(),
    };
    trim_chars(&strip_char_of(&strip_char_of(&trim_chars(&before), '~'), '*'))
}

pub fn clean_title(value: &str) -> (r: String)
    ensures
        r@ == clean_title_spec(value@),
{
    string_from_chars(&clean_title_chars(&chars_of(value)))
}

/// Applies one relative path segment: empty and `.` stay, `..` goes up, others go down.
pub open spec fn walk_step(acc: Seq<Seq<char>>, seg: Seq<char>) -> Seq<Seq<char>> {
    if seg.len() == 0 || seg == seq!['.'] {
        acc
    } else if seg == seq!['.', '.'] {
        if acc.len() > 0 {
            acc.drop_last()
        } else {
            acc
        }
    } else {
        acc.push(seg)
    }
}

pub open spec fn walk(base: Seq<Seq<char>>, segs: Seq<Seq<char>>) -> Seq<Seq<char>>
    decreases segs.len(),
{
    if segs.len() == 0 {
        base
    } else {
        walk_step(walk(base, segs.drop_last()), segs.last())
    }
}

pub open spec fn strip_leading(s: Seq<char>, c: char) -> Seq<char>
    decreases s.len(),
{
    if s.len() > 0 && s[0] == c {
        strip_leading(s.drop_first(), c)
    } else {
        s
    }
}

/// The supplied path a link target names: absolute targets from the root, relative ones
/// from the source's directory.
pub open spec fn resolve_link_spec(source: Seq<char>, target: Seq<char>) -> Seq<char> {
    if target.len() > 0 && target[0] == '/' {
        slashes(strip_leading(target, '/'))
    } else {
        join_seq(
            walk(split_seq(source, '/').drop_last(), split_seq(slashes(target), '/')),
            seq!['/'],
        )
    }
}

fn resolve_link_chars(source: &Vec<char>, target: &Vec<char>) -> (r: Vec<char>)
    ensures
        r@ == resolve_link_spec(source@, target@),
{
    let mut sep: Vec<char> = Vec::new();
    sep.push('/');
    assert(sep@ =~= seq!['/']);
    if target.len() > 0 && target[0] == '/' {
        let mut k: usize = 0;
        assert(target@.subrange(0, target.len() as int) =~= target@);
        while k < target.len() && target[k] == '/'
            invariant
                k <= target.len(),
                strip_leading(target@, '/') == strip_leading(
                    target@.subrange(k as int, target.len() as int),
                    '/',
                ),
            decreases target.len() - k,
        {
            let ghost u = target@.subrange(k as int, target.len() as int);
            assert(u.drop_first() =~= target@.subrange(k + 1, target.len() as int));
            k = k + 1;
        }
        return slashes_of(&slice_chars(target, k, target.len()));
    }
    let mut parts = split_chars(source, '/');
    proof {
        crate::text::lemma_split_nonempty(source@, '/');
    }
    let ghost whole = views(parts@);
    parts.pop();
    assert(views(parts@) =~= whole.drop_last());
    let ghost base = views(parts@);
    let segs = split_chars(&slashes_of(target), '/');
    let dd = dot_dot();
    let mut i: usize = 0;
    while i < segs.len()
        invariant
            i <= segs.len(),
            dd@ == seq!['.', '.'],
            views(parts@) == walk(base, views(segs@).subrange(0, i as int)),
        decreases segs.len() - i,
    {
        assert(views(segs@).subrange(0, i + 1).drop_last() =~= views(segs@).subrange(0, i as int));
        assert(views(segs@).subrange(0, i + 1).last() == segs@[i as int]@);
        let seg = &segs[i];
        let dot = seg.len() == 1 && seg[0] == '.';
        assert(dot == (seg@ == seq!['.'])) by {
            if seg@.len() == 1 && seg@[0] == '.' {
                assert(seg@ =~= seq!['.']);
            }
        }
        if seg.len() == 0 || dot {
        } else if chars_eq(seg, &dd) {
            if parts.len() > 0 {
                let ghost before = parts@;
                parts.pop();
                assert(views(parts@) =~= views(before).drop_last());
            }
        } else {
            let ghost before = parts@;
            parts.push(seg.clone());
            assert(views(parts@) =~= views(before).push(seg@));
        }
        i = i + 1;
    }
    assert(views(segs@).subrange(0, segs@.len() as int) =~= views(segs@));
    join_chars(&parts, &sep)
}

pub fn resolve_link(source: &str, target: &str) -> (r: String)
    ensures
        r@ == resolve_link_spec(source@, target@),
{
    string_from_chars(&resolve_link_chars(&chars_of(source), &chars_of(target)))
}

/// A link target that the preview could not match to a supplied chunk.
pub struct UnresolvedMarkdownLink {
    pub source_path: String,
    pub source_line: usize,
    pub target: String,
}

/// A link target as it is reported.
pub struct LinkView {
    pub source_path: Seq<char>,
    pub source_line: int,
    pub target: Seq<char>,
}

pub open spec fn link_view(l: UnresolvedMarkdownLink) -> LinkView {
    LinkView { source_path: l.source_path@, source_line: l.source_line as int, target: l.target@ }
}

pub open spec fn link_views(v: Seq<UnresolvedMarkdownLink>) -> Seq<LinkView> {
    v.map_values(|l: UnresolvedMarkdownLink| link_view(l))
}

/// The text before the first `#` or `?`.
pub open spec fn before_fragment(s: Seq<char>) -> Seq<char>
    decreases s.len(),
{
    if s.len() == 0 {
        s
    } else if s[0] == '#' || s[0] == '?' {
        seq![]
    } else {
        seq![s[0]] + before_fragment(s.drop_first())
    }
}

/// The first word of the text between `](` and `)`.
pub open spec fn link_target(inner: Seq<char>) -> Seq<char> {
    let ws = words(trim(inner));
    if ws.len() > 0 {
        ws[0]
    } else {
        seq![]
    }
}

/// The report for one link, if it is a relative path that names no supplied chunk.
pub open spec fn link_report(
    source: Seq<char>,
    line_no: int,
    inner: Seq<char>,
    known: Seq<Seq<char>>,
) -> Seq<LinkView> {
    let target = link_target(inner);
    if target.len() > 0 && target[0] != '#' && find_seq(target, "://"@) is None && !has_prefix(
        target,
        "mailto:"@,
    ) {
        let path = before_fragment(target);
        if !known.contains(resolve_link_spec(source, path)) {
            seq![LinkView { source_path: source, source_line: line_no, target: path }]
        } else {
            seq![]
        }
    } else {
        seq![]
    }
}

/// The unresolved links of a line, in order: each `](target)` whose target is checked.
pub open spec fn scan_links_spec(
    source: Seq<char>,
    line_no: int,
    rest: Seq<char>,
    known: Seq<Seq<char>>,
) -> Seq<LinkView>
    decreases rest.len(),
{
    match find_seq(rest, seq![']', '(']) {
        None => seq![],
        Some(i) => {
            let ts = i + 2;
            match find_from(rest, seq![')'], ts) {
                None => seq![],
                Some(j) => {
                    proof {
                        lemma_find_from(rest, seq![')'], ts);
                    }
                    link_report(source, line_no, rest.subrange(ts, j), known) + scan_links_spec(
                        source,
                        line_no,
                        rest.subrange(j + 1, rest.len() as int),
                        known,
                    )
                },
            }
        },
    }
}

fn before_fragment_chars(v: &Vec<char>) -> (r: Vec<char>)
    ensures
        r@ == before_fragment(v@),
{
    let mut r: Vec<char> = Vec::new();
    let mut i: usize = 0;
    assert(v@.subrange(0, v.len() as int) =~= v@);
    assert(r@ + before_fragment(v@) =~= before_fragment(v@));
    while i < v.len() && v[i] != '#' && v[i] != '?'
        invariant
            i <= v.len(),
            r@ == v@.subrange(0, i as int),
            before_fragment(v@) == r@ + before_fragment(v@.subrange(i as int, v.len() as int)),
        decreases v.len() - i,
    {
        let ghost u = v@.subrange(i as int, v.len() as int);
        assert(u.drop_first() =~= v@.subrange(i + 1, v.len() as int));
        assert(r@.push(v@[i as int]) =~= v@.subrange(0, i + 1));
        assert(r@ + (seq![v@[i as int]] + before_fragment(u.drop_first())) =~= r@.push(v@[i as int]) + before_fragment(u.drop_first()));
        r.push(v[i]);
        i = i + 1;
    }
    assert(before_fragment(v@.subrange(i as int, v.len() as int)) =~= seq![]);
    assert(r@ + seq![] =~= r@);
    r
}

fn contains_path(known: &Vec<Vec<char>>, path: &Vec<char>) -> (r: bool)
    ensures
        r == views(known@).contains(path@),
{
    let mut i: usize = 0;
    while i < known.len()
        invariant
            i <= known.len(),
            forall|k: int| 0 <= k < i ==> known@[k]@ != path@,
        decreases known.len() - i,
    {
        if chars_eq(&known[i], path) {
            assert(views(known@)[i as int] == path@);
            return true;
        }
        i = i + 1;
    }
    proof {
        if views(known@).contains(path@) {
            let k = choose|k: int| 0 <= k < views(known@).len() && views(known@)[k] == path@;
            assert(known@[k]@ == path@);
        }
    }
    false
}

fn link_report_of(
    source: &Vec<char>,
    line_no: usize,
    inner: &Vec<char>,
    known: &Vec<Vec<char>>,
    out: &mut Vec<UnresolvedMarkdownLink>,
)
    ensures
        link_views(final(out)@) == link_views(old(out)@) + link_report(
            source@,
            line_no as int,
            inner@,
            views(known@),
        ),
{
    let ws = words_of(&trim_chars(inner));
    let target = if ws.len() > 0 {
        ws[0].clone()
    } else {
        Vec::new()
    };
    assert(target@ == link_target(inner@));
    let scheme = chars_of("://");
    let mailto = chars_of("mailto:");
    let ghost before = out@;
    if target.len() > 0 && target[0] != '#' && find_chars(&target, &scheme, 0).is_none()
        && !chars_match_at(&target, 0, &mailto) {
        let path = before_fragment_chars(&target);
        let resolved = resolve_link_chars(source, &path);
        if !contains_path(known, &resolved) {
            out.push(
                UnresolvedMarkdownLink {
                    source_path: string_from_chars(source),
                    source_line: line_no,
                    target: string_from_chars(&path),
                },
            );
            assert(link_views(out@) =~= link_views(before) + link_report(
                source@,
                line_no as int,
                inner@,
                views(known@),
            ));
        } else {
            assert(link_views(out@) =~= link_views(before) + link_report(
                source@,
                line_no as int,
                inner@,
                views(known@),
            ));
        }
    } else {
        assert(link_views(out@) =~= link_views(before) + link_report(
            source@,
            line_no as int,
            inner@,
            views(known@),
        ));
    }
}

/// Searching a suffix of `s` is searching `s` from the suffix's start.
proof fn lemma_find_shift(s: Seq<char>, p: Seq<char>, pos: int, i: int)
    requires
        0 <= pos <= s.len(),
        0 <= i,
    ensures
        find_from(s, p, pos + i) == match find_from(s.subrange(pos, s.len() as int), p, i) {
            Some(k) => Some(k + pos),
            None => None::<int>,
        },
    decreases s.len() + 1 - (pos + i),
{
    let t = s.subrange(pos, s.len() as int);
    if i + p.len() <= t.len() {
        assert(t.subrange(i, i + p.len()) =~= s.subrange(pos + i, pos + i + p.len()));
        if t.subrange(i, i + p.len()) != p {
            lemma_find_shift(s, p, pos, i + 1);
        }
    }
}

/// Reports the line's unresolved relative links.
fn scan_links(
    source: &Vec<char>,
    line_no: usize,
    line: &Vec<char>,
    known: &Vec<Vec<char>>,
    out: &mut Vec<UnresolvedMarkdownLink>,
)
    ensures
        link_views(final(out)@) == link_views(old(out)@) + scan_links_spec(
            source@,
            line_no as int,
            line@,
            views(known@),
        ),
{
    let mut open: Vec<char> = Vec::new();
    open.push(']');
    open.push('(');
    assert(open@ =~= seq![']', '(']);
    let mut close: Vec<char> = Vec::new();
    close.push(')');
    assert(close@ =~= seq![')']);
    let n = line.len();
    let mut pos: usize = 0;
    assert(line@.subrange(0, n as int) =~= line@);
    let ghost start = out@;
    loop
        invariant
            n == line@.len(),
            pos <= n,
            start == old(out)@,
            open@ == seq![']', '('],
            close@ == seq![')'],
            link_views(out@) + scan_links_spec(
                source@,
                line_no as int,
                line@.subrange(pos as int, n as int),
                views(known@),
            ) == link_views(start) + scan_links_spec(source@, line_no as int, line@, views(known@)),
        decreases n - pos,
    {
        let ghost rest = line@.subrange(pos as int, n as int);
        proof {
            lemma_find_shift(line@, open@, pos as int, 0);
        }
        let i = match find_chars(line, &open, pos) {
            None => {
                assert(find_from(rest, open@, 0) is None);
                assert(scan_links_spec(source@, line_no as int, rest, views(known@)) =~= seq![]);
                assert(link_views(out@) + seq![] =~= link_views(out@));
                return;
            },
            Some(i) => i,
        };
        proof {
            lemma_find_from(line@, open@, pos as int);
            lemma_find_shift(line@, close@, pos as int, i - pos + 2);
        }
        let ts = i + 2;
        let j = match find_chars(line, &close, ts) {
            None => {
                assert(find_from(rest, close@, ts - pos) is None);
                assert(scan_links_spec(source@, line_no as int, rest, views(known@)) =~= seq![]);
                assert(link_views(out@) + seq![] =~= link_views(out@));
                return;
            },
            Some(j) => j,
        };
        proof {
            lemma_find_from(line@, close@, ts as int);
            assert(rest.subrange(ts - pos, j - pos) =~= line@.subrange(ts as int, j as int));
            assert(rest.subrange(j - pos + 1, rest.len() as int) =~= line@.subrange(j + 1, n as int));
        }
        let ghost tail = scan_links_spec(
            source@,
            line_no as int,
            line@.subrange(j + 1, n as int),
            views(known@),
        );
        let ghost mid = out@;
        link_report_of(source, line_no, &slice_chars(line, ts, j), known, out);
        assert(link_views(out@) + tail =~= link_views(mid) + (link_report(
            source@,
            line_no as int,
            line@.subrange(ts as int, j as int),
            views(known@),
        ) + tail));
        pos = j + 1;
    }
}


/// What an import was read from.
pub struct ImportSource {
    pub context: String,
    pub git_revision: String,
    pub observed_at: String,
    pub branch: String,
    pub environment: String,
}

/// What `chrono::DateTime::parse_from_rfc3339` accepts.
pub uninterp spec fn rfc3339_accepts(text: Seq<char>) -> bool;

/// `chrono::DateTime::parse_from_rfc3339`, reporting only whether the text parses; that
/// answer depends on the text alone.
#[verifier::external_body]
fn parses_as_rfc3339(text: &str) -> (r: bool)
    ensures
        r == rfc3339_accepts(text@),
{
    chrono::DateTime::parse_from_rfc3339(text).is_ok()
}

pub open spec fn hex_char(c: char) -> bool {
    ('0' <= c && c <= '9') || ('a' <= c && c <= 'f') || ('A' <= c && c <= 'F')
}

/// A full Git object id: 40 or 64 hexadecimal digits.
pub open spec fn git_object_id(v: Seq<char>) -> bool {
    (v.len() == 40 || v.len() == 64) && forall|i: int| 0 <= i < v.len() ==> hex_char(#[trigger] v[i])
}

/// The first rule the source metadata breaks, or `None`.
pub open spec fn source_error(s: ImportSource) -> Option<ErrorView> {
    if !bounded_ok(s.context@, 255, true) {
        Some(bad_request_view(bounded_message("source context"@, 255, true)))
    } else if !bounded_ok(s.git_revision@, 128, true) {
        Some(bad_request_view(bounded_message("Git revision"@, 128, true)))
    } else if !bounded_ok(s.observed_at@, 64, true) {
        Some(bad_request_view(bounded_message("observation time"@, 64, true)))
    } else if !bounded_ok(s.branch@, 255, false) {
        Some(bad_request_view(bounded_message("source branch"@, 255, false)))
    } else if !bounded_ok(s.environment@, 255, false) {
        Some(bad_request_view(bounded_message("source environment"@, 255, false)))
    } else if !rfc3339_accepts(s.observed_at@) {
        Some(bad_request_view("observed_at must be an RFC 3339 timestamp."@))
    } else if !git_object_id(s.git_revision@) {
        Some(bad_request_view("git_revision must be a full hexadecimal Git object ID."@))
    } else {
        None
    }
}

pub fn validate_source(source: &ImportSource) -> (r: Result<(), AppError>)
    ensures
        match source_error(*source) {
            None => r is Ok,
            Some(v) => (r matches Err(e) && e@ == v),
        },
{
    check_bounded(source.context.as_str(), "source context", 255, true)?;
    check_bounded(source.git_revision.as_str(), "Git revision", 128, true)?;
    check_bounded(source.observed_at.as_str(), "observation time", 64, true)?;
    check_bounded(source.branch.as_str(), "source branch", 255, false)?;
    check_bounded(source.environment.as_str(), "source environment", 255, false)?;
    if !parses_as_rfc3339(source.observed_at.as_str()) {
        return Err(AppError::bad_request("observed_at must be an RFC 3339 timestamp."));
    }
    let v = chars_of(source.git_revision.as_str());
    let mut ok = v.len() == 40 || v.len() == 64;
    let mut i: usize = 0;
    while ok && i < v.len()
        invariant
            i <= v.len(),
            ok ==> (v.len() == 40 || v.len() == 64),
            ok ==> forall|k: int| 0 <= k < i ==> hex_char(#[trigger] v@[k]),
            !ok ==> !git_object_id(v@),
        decreases v.len() - i,
    {
        let c = v[i];
        if !(('0' <= c && c <= '9') || ('a' <= c && c <= 'f') || ('A' <= c && c <= 'F')) {
            assert(!hex_char(v@[i as int]));
            ok = false;
        }
        i = i + 1;
    }
    if !ok {
        return Err(AppError::bad_request("git_revision must be a full hexadecimal Git object ID."));
    }
    Ok(())
}

/// One Markdown document of an import.
pub struct MarkdownChunk {
    pub path: String,
    pub markdown: String,
}

/// A historical record named by an import without a checklist line.
pub struct HistoricalMapping {
    pub path: String,
    pub section_identity: String,
    pub title: String,
    pub evidence: String,
    pub disposition: String,
}

/// A record an import would create or update.
pub struct ImportItem {
    pub stable_identity: String,
    pub source_path: String,
    pub section_identity: String,
    pub title: String,
    pub record_kind: String,
    pub disposition: String,
    pub source_line: usize,
    pub evidence: String,
    pub prior_record_revision: Option<i64>,
}

/// Something in an import that needs an operator's attention.
pub struct ImportConflict {
    pub code: String,
    pub source_path: String,
    pub section_identity: String,
    pub message: String,
    pub blocking: bool,
}

pub struct ItemView {
    pub stable_identity: Seq<char>,
    pub source_path: Seq<char>,
    pub section_identity: Seq<char>,
    pub title: Seq<char>,
    pub record_kind: Seq<char>,
    pub disposition: Seq<char>,
    pub source_line: int,
    pub evidence: Seq<char>,
    pub prior_record_revision: Option<i64>,
}

pub struct ConflictView {
    pub code: Seq<char>,
    pub source_path: Seq<char>,
    pub section_identity: Seq<char>,
    pub message: Seq<char>,
    pub blocking: bool,
}

pub open spec fn item_view(i: ImportItem) -> ItemView {
    ItemView {
        stable_identity: i.stable_identity@,
        source_path: i.source_path@,
        section_identity: i.section_identity@,
        title: i.title@,
        record_kind: i.record_kind@,
        disposition: i.disposition@,
        source_line: i.source_line as int,
        evidence: i.evidence@,
        prior_record_revision: i.prior_record_revision,
    }
}

pub open spec fn item_views(v: Seq<ImportItem>) -> Seq<ItemView> {
    v.map_values(|i: ImportItem| item_view(i))
}

pub open spec fn conflict_view(c: ImportConflict) -> ConflictView {
    ConflictView {
        code: c.code@,
        source_path: c.source_path@,
        section_identity: c.section_identity@,
        message: c.message@,
        blocking: c.blocking,
    }
}

pub open spec fn conflict_views(v: Seq<ImportConflict>) -> Seq<ConflictView> {
    v.map_values(|c: ImportConflict| conflict_view(c))
}

/// What parsing gathers: items, conflicts and unresolved links, in order.
pub struct ParsedImport {
    pub items: Vec<ImportItem>,
    pub conflicts: Vec<ImportConflict>,
    pub unresolved_links: Vec<UnresolvedMarkdownLink>,
}

pub struct ParseView {
    pub items: Seq<ItemView>,
    pub conflicts: Seq<ConflictView>,
    pub links: Seq<LinkView>,
}

pub open spec fn parse_view(p: ParsedImport) -> ParseView {
    ParseView {
        items: item_views(p.items@),
        conflicts: conflict_views(p.conflicts@),
        links: link_views(p.unresolved_links@),
    }
}

/// A line without a trailing carriage return.
pub open spec fn strip_cr(s: Seq<char>) -> Seq<char> {
    if s.len() > 0 && s.last() == '\r' {
        s.drop_last()
    } else {
        s
    }
}

pub open spec fn strip_crs(parts: Seq<Seq<char>>) -> Seq<Seq<char>>
    decreases parts.len(),
{
    if parts.len() == 0 {
        seq![]
    } else {
        strip_crs(parts.drop_last()).push(strip_cr(parts.last()))
    }
}

/// `str::lines`: pieces between newlines, a carriage return before a newline dropped, and no
/// empty piece after a final newline.
pub open spec fn lines_of(s: Seq<char>) -> Seq<Seq<char>> {
    let parts = split_seq(s, '\n');
    let body = strip_crs(parts.drop_last());
    if parts.last().len() == 0 {
        body
    } else {
        body.push(parts.last())
    }
}

fn lines_chars(v: &Vec<char>) -> (r: Vec<Vec<char>>)
    ensures
        views(r@) == lines_of(v@),
{
    let parts = split_chars(v, '\n');
    proof {
        crate::text::lemma_split_nonempty(v@, '\n');
    }
    let n = parts.len();
    let mut r: Vec<Vec<char>> = Vec::new();
    let mut i: usize = 0;
    while i + 1 < n
        invariant
            n == parts.len(),
            n >= 1,
            i <= n - 1,
            views(r@) == strip_crs(views(parts@).subrange(0, i as int)),
        decreases n - i,
    {
        assert(views(parts@).subrange(0, i + 1).drop_last() =~= views(parts@).subrange(0, i as int));
        assert(views(parts@).subrange(0, i + 1).last() == parts@[i as int]@);
        let p = &parts[i];
        let q = if p.len() > 0 && p[p.len() - 1] == '\r' {
            let t = slice_chars(p, 0, p.len() - 1);
            assert(t@ =~= p@.drop_last());
            t
        } else {
            p.clone()
        };
        let ghost before = r@;
        r.push(q);
        assert(views(r@) =~= views(before).push(strip_cr(p@)));
        i = i + 1;
    }
    assert(views(parts@).subrange(0, (n - 1) as int) =~= views(parts@).drop_last());
    let last = &parts[n - 1];
    if last.len() > 0 {
        let ghost before = r@;
        r.push(last.clone());
        assert(views(r@) =~= views(before).push(last@));
    }
    r
}

/// The number of leading `#` characters.
pub open spec fn leading_hashes(t: Seq<char>) -> nat
    decreases t.len(),
{
    if t.len() > 0 && t[0] == '#' {
        1 + leading_hashes(t.drop_first())
    } else {
        0
    }
}

proof fn lemma_leading_hashes(t: Seq<char>)
    ensures
        leading_hashes(t) <= t.len(),
        forall|k: int| 0 <= k < leading_hashes(t) ==> t[k] == '#',
        leading_hashes(t) < t.len() ==> t[leading_hashes(t) as int] != '#',
    decreases t.len(),
{
    if t.len() > 0 && t[0] == '#' {
        lemma_leading_hashes(t.drop_first());
        assert forall|k: int| 0 <= k < leading_hashes(t) implies t[k] == '#' by {
            if k > 0 {
                assert(t[k] == t.drop_first()[k - 1]);
            }
        }
    }
}

/// An ATX heading line (already trimmed): 1 to 6 `#`, a space, then the heading text.
pub open spec fn heading_of(t: Seq<char>) -> Option<(nat, Seq<char>)> {
    let level = leading_hashes(t);
    if 1 <= level <= 6 && t.len() > level && t[level as int] == ' ' {
        Some((level, trim(t.subrange(level as int + 1, t.len() as int))))
    } else {
        None
    }
}

fn heading_chars(t: &Vec<char>) -> (r: Option<(usize, Vec<char>)>)
    ensures
        match heading_of(t@) {
            Some((level, text)) => (r matches Some(p) && p.0 == level && p.1@ == text),
            None => r is None,
        },
{
    proof {
        lemma_leading_hashes(t@);
    }
    let mut level: usize = 0;
    assert(t@.subrange(0, t.len() as int) =~= t@);
    while level < t.len() && t[level] == '#'
        invariant
            level <= t.len(),
            leading_hashes(t@) == level + leading_hashes(t@.subrange(level as int, t.len() as int)),
        decreases t.len() - level,
    {
        let ghost u = t@.subrange(level as int, t.len() as int);
        assert(u.drop_first() =~= t@.subrange(level + 1, t.len() as int));
        level = level + 1;
    }
    assert(leading_hashes(t@.subrange(level as int, t.len() as int)) == 0);
    if 1 <= level && level <= 6 && t.len() > level && t[level] == ' ' {
        Some((level, trim_chars(&slice_chars(t, level + 1, t.len()))))
    } else {
        None
    }
}

/// The heading path and any marker id waiting for the next item, while a document is read.
pub struct DocState {
    pub headings: Seq<Seq<char>>,
    pub pending: Option<Seq<char>>,
}

pub open spec fn closed_evidence() -> Seq<char> {
    "Explicit checked Markdown checklist item at the recorded source revision."@
}

/// The index of the first item with the given identity.
pub open spec fn item_index(items: Seq<ItemView>, id: Seq<char>) -> Option<int>
    decreases items.len(),
{
    if items.len() == 0 {
        None
    } else {
        match item_index(items.drop_last(), id) {
            Some(i) => Some(i),
            None => if items.last().stable_identity == id {
                Some(items.len() - 1)
            } else {
                None
            },
        }
    }
}

pub proof fn lemma_item_index(items: Seq<ItemView>, id: Seq<char>)
    ensures
        item_index(items, id) matches Some(i) ==> 0 <= i < items.len()
            && items[i].stable_identity == id,
        item_index(items, id) is None <==> forall|k: int|
            0 <= k < items.len() ==> (#[trigger] items[k]).stable_identity != id,
    decreases items.len(),
{
    if items.len() > 0 {
        lemma_item_index(items.drop_last(), id);
        assert forall|k: int| 0 <= k < items.len() - 1 implies items.drop_last()[k] == items[k] by {}
    }
}

pub open spec fn conflict(
    code: Seq<char>,
    path: Seq<char>,
    section: Seq<char>,
    message: Seq<char>,
) -> ConflictView {
    ConflictView {
        code,
        source_path: path,
        section_identity: section,
        message,
        blocking: true,
    }
}

pub open spec fn repeat_message(first_path: Seq<char>, first_section: Seq<char>) -> Seq<char> {
    "This item repeats source identity already used at "@ + first_path + " in "@ + first_section
        + "; add distinct coordinator-id markers."@
}

/// One line of a document: marker ids, headings, links, then a checklist item if any.
pub open spec fn line_step(
    context: Seq<char>,
    known: Seq<Seq<char>>,
    path: Seq<char>,
    index: int,
    line: Seq<char>,
    acc: ParseView,
    doc: DocState,
) -> (ParseView, DocState) {
    let trimmed = trim(line);
    let pending1 = match explicit_anchor_spec(trimmed) {
        Some(a) => Some(a),
        None => doc.pending,
    };
    let (headings, pending) = match heading_of(trimmed) {
        Some((level, text)) => (
            if level - 1 <= doc.headings.len() {
                doc.headings.take(level - 1)
            } else {
                doc.headings
            }.push(text),
            None,
        ),
        None => (doc.headings, pending1),
    };
    let links = acc.links + scan_links_spec(path, index + 1, line, known);
    let acc1 = ParseView { links, ..acc };
    match checklist_spec(line) {
        None => (acc1, DocState { headings, pending }),
        Some((closed, raw)) => {
            let title = clean_title_spec(raw);
            let joined = join_seq(headings, " / "@);
            if title.len() == 0 || utf8_len(title) > 300 {
                (
                    ParseView {
                        conflicts: acc1.conflicts.push(
                            conflict(
                                "invalid_checklist_item"@,
                                path,
                                joined,
                                "Checklist titles must contain 1–300 bytes."@,
                            ),
                        ),
                        ..acc1
                    },
                    DocState { headings, pending },
                )
            } else {
                let section = if headings.len() == 0 {
                    "(root)"@
                } else {
                    joined
                };
                let (anchor, pending2) = match explicit_anchor_spec(raw) {
                    Some(a) => (a, pending),
                    None => match pending {
                        Some(p) => (p, None),
                        None => (normalize_identity(title), None),
                    },
                };
                let identity = identity_of(context, path, section, anchor);
                match item_index(acc1.items, identity) {
                    Some(k) => (
                        ParseView {
                            conflicts: acc1.conflicts.push(
                                conflict(
                                    "ambiguous_source_identity"@,
                                    path,
                                    section,
                                    repeat_message(
                                        acc1.items[k].source_path,
                                        acc1.items[k].section_identity,
                                    ),
                                ),
                            ),
                            ..acc1
                        },
                        DocState { headings, pending: pending2 },
                    ),
                    None => (
                        ParseView {
                            items: acc1.items.push(
                                ItemView {
                                    stable_identity: identity,
                                    source_path: path,
                                    section_identity: section,
                                    title,
                                    record_kind: "task"@,
                                    disposition: if closed {
                                        "closed"@
                                    } else {
                                        "planned"@
                                    },
                                    source_line: index + 1,
                                    evidence: if closed {
                                        closed_evidence()
                                    } else {
                                        ""@
                                    },
                                    prior_record_revision: None,
                                },
                            ),
                            ..acc1
                        },
                        DocState { headings, pending: pending2 },
                    ),
                }
            }
        },
    }
}

pub open spec fn opt_view(o: Option<Vec<char>>) -> Option<Seq<char>> {
    match o {
        Some(v) => Some(v@),
        None => None,
    }
}

proof fn lemma_item_index_prefix(items: Seq<ItemView>, n: int, id: Seq<char>)
    requires
        0 <= n <= items.len(),
        item_index(items.subrange(0, n), id) is Some,
    ensures
        item_index(items, id) == item_index(items.subrange(0, n), id),
    decreases items.len(),
{
    if n == items.len() {
        assert(items.subrange(0, n) =~= items);
    } else {
        assert(items.drop_last().subrange(0, n) =~= items.subrange(0, n));
        lemma_item_index_prefix(items.drop_last(), n, id);
    }
}

/// The index of the first item with identity `id`.
fn find_item(items: &Vec<ImportItem>, id: &str) -> (r: Option<usize>)
    ensures
        match item_index(item_views(items@), id@) {
            Some(k) => r == Some(k as usize),
            None => r is None,
        },
        r matches Some(k) ==> item_index(item_views(items@), id@) == Some(k as int),
{
    let ghost all = item_views(items@);
    let mut i: usize = 0;
    assert(all.subrange(0, 0) =~= seq![]);
    while i < items.len()
        invariant
            i <= items.len(),
            all == item_views(items@),
            item_index(all.subrange(0, i as int), id@) is None,
        decreases items.len() - i,
    {
        assert(all.subrange(0, i + 1).drop_last() =~= all.subrange(0, i as int));
        if crate::text::str_eq(items[i].stable_identity.as_str(), id) {
            proof {
                lemma_item_index_prefix(all, i + 1, id@);
            }
            return Some(i);
        }
        i = i + 1;
    }
    assert(all.subrange(0, all.len() as int) =~= all);
    None
}

fn text_of(s: &str) -> (r: String)
    ensures
        r@ == s@,
{
    s.to_owned()
}

/// Reads one line of a document into the accumulated import.
fn process_line(
    context: &str,
    known: &Vec<Vec<char>>,
    path: &Vec<char>,
    index: usize,
    line: &Vec<char>,
    acc: &mut ParsedImport,
    headings: &mut Vec<Vec<char>>,
    pending: &mut Option<Vec<char>>,
)
    requires
        index < usize::MAX,
    ensures
        ({
            let (a, d) = line_step(
                context@,
                views(known@),
                path@,
                index as int,
                line@,
                parse_view(*old(acc)),
                DocState { headings: views(old(headings)@), pending: opt_view(*old(pending)) },
            );
            parse_view(*final(acc)) == a && views(final(headings)@) == d.headings && opt_view(
                *final(pending),
            ) == d.pending
        }),
{
    let ghost acc0 = parse_view(*acc);
    let ghost doc0 = DocState { headings: views(headings@), pending: opt_view(*pending) };
    let trimmed = trim_chars(line);
    match explicit_anchor_chars(&trimmed) {
        Some(a) => {
            *pending = Some(a);
        },
        None => {},
    }
    match heading_chars(&trimmed) {
        Some((level, text)) => {
            let ghost before = headings@;
            headings.truncate(level - 1);
            assert(views(headings@) =~= if level - 1 <= views(before).len() {
                views(before).take(level - 1)
            } else {
                views(before)
            });
            let ghost mid = headings@;
            headings.push(text);
            assert(views(headings@) =~= views(mid).push(text@));
            *pending = None;
        },
        None => {},
    }
    let ghost links0 = acc.unresolved_links@;
    scan_links(path, index + 1, line, known, &mut acc.unresolved_links);
    let ghost acc1 = parse_view(*acc);
    assert(acc1 == ParseView {
        links: acc0.links + scan_links_spec(path@, index + 1, line@, views(known@)),
        ..acc0
    });
    let (closed, raw) = match checklist_chars(line) {
        None => {
            return;
        },
        Some(p) => p,
    };
    let title = clean_title_chars(&raw);
    let title_text = string_from_chars(&title);
    let sep = chars_of(" / ");
    let joined = join_chars(headings, &sep);
    if title.len() == 0 || crate::text::byte_len(title_text.as_str()) > 300 {
        let ghost before = acc.conflicts@;
        acc.conflicts.push(
            ImportConflict {
                code: text_of("invalid_checklist_item"),
                source_path: string_from_chars(path),
                section_identity: string_from_chars(&joined),
                message: text_of("Checklist titles must contain 1–300 bytes."),
                blocking: true,
            },
        );
        assert(conflict_views(acc.conflicts@) =~= conflict_views(before).push(
            conflict(
                "invalid_checklist_item"@,
                path@,
                joined@,
                "Checklist titles must contain 1–300 bytes."@,
            ),
        ));
        return;
    }
    let section = if headings.len() == 0 {
        chars_of("(root)")
    } else {
        joined
    };
    let anchor = match explicit_anchor_chars(&raw) {
        Some(a) => a,
        None => match pending.take() {
            Some(p) => p,
            None => chars_of(normalize_identity_text(title_text.as_str()).as_str()),
        },
    };
    let path_text = string_from_chars(path);
    let section_text = string_from_chars(&section);
    let identity = stable_identity(
        context,
        path_text.as_str(),
        section_text.as_str(),
        string_from_chars(&anchor).as_str(),
    );
    match find_item(&acc.items, identity.as_str()) {
        Some(k) => {
            proof {
                lemma_item_index(item_views(acc.items@), identity@);
            }
            let first = &acc.items[k];
            let mut message = text_of("This item repeats source identity already used at ");
            message.append(first.source_path.as_str());
            message.append(" in ");
            message.append(first.section_identity.as_str());
            message.append("; add distinct coordinator-id markers.");
            let ghost before = acc.conflicts@;
            acc.conflicts.push(
                ImportConflict {
                    code: text_of("ambiguous_source_identity"),
                    source_path: path_text,
                    section_identity: section_text,
                    message,
                    blocking: true,
                },
            );
            assert(conflict_views(acc.conflicts@) =~= conflict_views(before).push(
                conflict(
                    "ambiguous_source_identity"@,
                    path@,
                    section@,
                    repeat_message(
                        acc1.items[k as int].source_path,
                        acc1.items[k as int].section_identity,
                    ),
                ),
            ));
        },
        None => {
            let ghost before = acc.items@;
            let disposition = if closed {
                text_of("closed")
            } else {
                text_of("planned")
            };
            let evidence = if closed {
                text_of("Explicit checked Markdown checklist item at the recorded source revision.")
            } else {
                text_of("")
            };
            acc.items.push(
                ImportItem {
                    stable_identity: identity,
                    source_path: path_text,
                    section_identity: section_text,
                    title: title_text,
                    record_kind: text_of("task"),
                    disposition,
                    source_line: index + 1,
                    evidence,
                    prior_record_revision: None,
                },
            );
            assert(item_views(acc.items@) =~= item_views(before).push(
                ItemView {
                    stable_identity: identity@,
                    source_path: path@,
                    section_identity: section@,
                    title: title@,
                    record_kind: "task"@,
                    disposition: if closed {
                        "closed"@
                    } else {
                        "planned"@
                    },
                    source_line: index + 1,
                    evidence: if closed {
                        closed_evidence()
                    } else {
                        ""@
                    },
                    prior_record_revision: None,
                },
            ));
        },
    }
}

/// The lines of a document read in order from the given state.
pub open spec fn doc_fold(
    context: Seq<char>,
    known: Seq<Seq<char>>,
    path: Seq<char>,
    lines: Seq<Seq<char>>,
    acc: ParseView,
    doc: DocState,
) -> (ParseView, DocState)
    decreases lines.len(),
{
    if lines.len() == 0 {
        (acc, doc)
    } else {
        let (a, d) = doc_fold(context, known, path, lines.drop_last(), acc, doc);
        line_step(context, known, path, lines.len() - 1, lines.last(), a, d)
    }
}

pub open spec fn generated_marker() -> Seq<char> {
    "<!-- agent-coordinator-generated-export"@
}

pub open spec fn empty_view() -> ParseView {
    ParseView { items: seq![], conflicts: seq![], links: seq![] }
}

/// One document: a generated export is flagged, then its lines are read from the top.
pub open spec fn chunk_step(
    context: Seq<char>,
    known: Seq<Seq<char>>,
    path: Seq<char>,
    markdown: Seq<char>,
    acc: ParseView,
) -> ParseView {
    let acc1 = if find_seq(markdown, generated_marker()) is Some {
        ParseView {
            conflicts: acc.conflicts.push(
                conflict(
                    "generated_projection"@,
                    path,
                    "(document)"@,
                    "Generated exports are projections and cannot be imported as authority."@,
                ),
            ),
            ..acc
        }
    } else {
        acc
    };
    doc_fold(
        context,
        known,
        path,
        lines_of(markdown),
        acc1,
        DocState { headings: seq![], pending: None },
    ).0
}

pub open spec fn markdowns(chunks: Seq<MarkdownChunk>) -> Seq<Seq<char>> {
    chunks.map_values(|c: MarkdownChunk| c.markdown@)
}

/// The first `n` documents read in order.
pub open spec fn chunks_fold(
    context: Seq<char>,
    paths: Seq<Seq<char>>,
    docs: Seq<Seq<char>>,
    n: nat,
) -> ParseView
    decreases n,
{
    if n == 0 {
        empty_view()
    } else {
        chunk_step(context, paths, paths[n - 1], docs[n - 1], chunks_fold(context, paths, docs, (n - 1) as nat))
    }
}

proof fn lemma_line_step_grows(
    context: Seq<char>,
    known: Seq<Seq<char>>,
    path: Seq<char>,
    index: int,
    line: Seq<char>,
    acc: ParseView,
    doc: DocState,
)
    ensures
        line_step(context, known, path, index, line, acc, doc).0.items.len() >= acc.items.len(),
{
}

proof fn lemma_doc_fold_grows(
    context: Seq<char>,
    known: Seq<Seq<char>>,
    path: Seq<char>,
    lines: Seq<Seq<char>>,
    i: int,
    acc: ParseView,
    doc: DocState,
)
    requires
        0 <= i <= lines.len(),
    ensures
        doc_fold(context, known, path, lines, acc, doc).0.items.len() >= doc_fold(
            context,
            known,
            path,
            lines.subrange(0, i),
            acc,
            doc,
        ).0.items.len(),
        doc_fold(context, known, path, lines, acc, doc).0.items.len() >= acc.items.len(),
    decreases lines.len(),
{
    if lines.len() == 0 {
        assert(lines.subrange(0, i) =~= lines);
    } else if i == lines.len() {
        assert(lines.subrange(0, i) =~= lines);
        lemma_doc_fold_grows(context, known, path, lines.drop_last(), 0, acc, doc);
        let (a, d) = doc_fold(context, known, path, lines.drop_last(), acc, doc);
        lemma_line_step_grows(context, known, path, lines.len() - 1, lines.last(), a, d);
    } else {
        assert(lines.drop_last().subrange(0, i) =~= lines.subrange(0, i));
        lemma_doc_fold_grows(context, known, path, lines.drop_last(), i, acc, doc);
        let (a, d) = doc_fold(context, known, path, lines.drop_last(), acc, doc);
        lemma_line_step_grows(context, known, path, lines.len() - 1, lines.last(), a, d);
    }
}

proof fn lemma_chunks_fold_grows(
    context: Seq<char>,
    paths: Seq<Seq<char>>,
    docs: Seq<Seq<char>>,
    k: nat,
    n: nat,
)
    requires
        k <= n,
    ensures
        chunks_fold(context, paths, docs, n).items.len() >= chunks_fold(
            context,
            paths,
            docs,
            k,
        ).items.len(),
    decreases n,
{
    if k < n {
        lemma_chunks_fold_grows(context, paths, docs, k, (n - 1) as nat);
        let prev = chunks_fold(context, paths, docs, (n - 1) as nat);
        let md = docs[n - 1];
        let acc1 = if find_seq(md, generated_marker()) is Some {
            ParseView {
                conflicts: prev.conflicts.push(
                    conflict(
                        "generated_projection"@,
                        paths[n - 1],
                        "(document)"@,
                        "Generated exports are projections and cannot be imported as authority."@,
                    ),
                ),
                ..prev
            }
        } else {
            prev
        };
        lemma_doc_fold_grows(
            context,
            paths,
            paths[n - 1],
            lines_of(md),
            0,
            acc1,
            DocState { headings: seq![], pending: None },
        );
    }
}

pub open spec fn disposition_ok(d: Seq<char>) -> bool {
    d == "closed"@ || d == "rejected"@ || d == "superseded"@
}

/// The first rule a historical mapping breaks, or `None`.
pub open spec fn mapping_error(paths: Seq<Seq<char>>, m: HistoricalMapping) -> Option<ErrorView> {
    match normalize_path_result(m.path@) {
        Err(e) => Some(e),
        Ok(p) => if !paths.contains(p) {
            Some(
                bad_request_view(
                    "Every historical mapping path must name a supplied source chunk."@,
                ),
            )
        } else if !bounded_ok(m.section_identity@, 512, true) {
            Some(bad_request_view(bounded_message("section identity"@, 512, true)))
        } else if !bounded_ok(m.title@, 255, true) {
            Some(bad_request_view(bounded_message("historical title"@, 255, true)))
        } else if !bounded_ok(m.evidence@, 8192, true) {
            Some(bad_request_view(bounded_message("historical evidence"@, 8192, true)))
        } else if !disposition_ok(m.disposition@) {
            Some(
                bad_request_view(
                    "Historical disposition must be closed, rejected, or superseded."@,
                ),
            )
        } else {
            None
        },
    }
}

/// The first error among the first `n` mappings.
pub open spec fn mappings_error(paths: Seq<Seq<char>>, maps: Seq<HistoricalMapping>, n: nat) -> Option<
    ErrorView,
>
    decreases n,
{
    if n == 0 {
        None
    } else {
        let prev = mappings_error(paths, maps, (n - 1) as nat);
        if prev is Some {
            prev
        } else {
            mapping_error(paths, maps[n - 1])
        }
    }
}

proof fn lemma_mappings_error_stable(paths: Seq<Seq<char>>, maps: Seq<HistoricalMapping>, a: nat, b: nat)
    requires
        a <= b,
        mappings_error(paths, maps, a) is Some,
    ensures
        mappings_error(paths, maps, b) == mappings_error(paths, maps, a),
    decreases b - a,
{
    if a < b {
        lemma_mappings_error_stable(paths, maps, a, (b - 1) as nat);
    }
}

pub open spec fn normalized_path(v: Seq<char>) -> Seq<char> {
    match normalize_path_result(v) {
        Ok(p) => p,
        Err(_) => v,
    }
}

/// A valid mapping recorded as a historical item, unless its identity is already taken.
pub open spec fn mapping_add(context: Seq<char>, m: HistoricalMapping, acc: ParseView) -> ParseView {
    let path = normalized_path(m.path@);
    let identity = identity_of(context, path, m.section_identity@, normalize_identity(m.title@));
    if item_index(acc.items, identity) is Some {
        ParseView {
            conflicts: acc.conflicts.push(
                conflict(
                    "ambiguous_source_identity"@,
                    path,
                    m.section_identity@,
                    "Historical mapping duplicates another source identity."@,
                ),
            ),
            ..acc
        }
    } else {
        ParseView {
            items: acc.items.push(
                ItemView {
                    stable_identity: identity,
                    source_path: path,
                    section_identity: m.section_identity@,
                    title: m.title@,
                    record_kind: "historical"@,
                    disposition: m.disposition@,
                    source_line: 0,
                    evidence: m.evidence@,
                    prior_record_revision: None,
                },
            ),
            ..acc
        }
    }
}

pub open spec fn mappings_fold(
    context: Seq<char>,
    maps: Seq<HistoricalMapping>,
    n: nat,
    acc: ParseView,
) -> ParseView
    decreases n,
{
    if n == 0 {
        acc
    } else {
        mapping_add(context, maps[n - 1], mappings_fold(context, maps, (n - 1) as nat, acc))
    }
}

proof fn lemma_mappings_fold_grows(
    context: Seq<char>,
    maps: Seq<HistoricalMapping>,
    k: nat,
    n: nat,
    acc: ParseView,
)
    requires
        k <= n,
    ensures
        mappings_fold(context, maps, n, acc).items.len() >= mappings_fold(
            context,
            maps,
            k,
            acc,
        ).items.len(),
    decreases n,
{
    if k < n {
        lemma_mappings_fold_grows(context, maps, k, (n - 1) as nat, acc);
    }
}

/// The normalized chunk paths of the first `n` chunks, or the first error among them.
pub open spec fn chunk_paths(chunks: Seq<MarkdownChunk>, n: nat) -> Result<Seq<Seq<char>>, ErrorView>
    decreases n,
{
    if n == 0 {
        Ok(seq![])
    } else {
        match chunk_paths(chunks, (n - 1) as nat) {
            Err(e) => Err(e),
            Ok(ps) => {
                let c = chunks[n - 1];
                match normalize_path_result(c.path@) {
                    Err(e) => Err(e),
                    Ok(p) => if !bounded_ok(c.markdown@, 204800, false) {
                        Err(bad_request_view(bounded_message("Markdown chunk"@, 204800, false)))
                    } else if ps.contains(p) {
                        Err(bad_request_view("Source chunk paths must be unique."@))
                    } else {
                        Ok(ps.push(p))
                    },
                }
            },
        }
    }
}

proof fn lemma_chunk_paths_len(chunks: Seq<MarkdownChunk>, n: nat)
    ensures
        chunk_paths(chunks, n) matches Ok(ps) ==> ps.len() == n,
    decreases n,
{
    if n > 0 {
        lemma_chunk_paths_len(chunks, (n - 1) as nat);
    }
}

proof fn lemma_chunk_paths_stable(chunks: Seq<MarkdownChunk>, a: nat, b: nat)
    requires
        a <= b,
        chunk_paths(chunks, a) is Err,
    ensures
        chunk_paths(chunks, b) == chunk_paths(chunks, a),
    decreases b - a,
{
    if a < b {
        lemma_chunk_paths_stable(chunks, a, (b - 1) as nat);
    }
}

/// The UTF-8 bytes of the first `n` documents together.
pub open spec fn markdown_bytes(chunks: Seq<MarkdownChunk>, n: nat) -> nat
    decreases n,
{
    if n == 0 {
        0
    } else {
        markdown_bytes(chunks, (n - 1) as nat) + utf8_len(chunks[n - 1].markdown@)
    }
}

proof fn lemma_markdown_bytes_grows(chunks: Seq<MarkdownChunk>, k: nat, n: nat)
    requires
        k <= n,
    ensures
        markdown_bytes(chunks, n) >= markdown_bytes(chunks, k),
    decreases n,
{
    if k < n {
        lemma_markdown_bytes_grows(chunks, k, (n - 1) as nat);
    }
}

/// Everything a preview reads from its chunks and mappings, or the first error.
pub open spec fn parse_result(
    source: ImportSource,
    chunks: Seq<MarkdownChunk>,
    maps: Seq<HistoricalMapping>,
) -> Result<ParseView, ErrorView> {
    if chunks.len() == 0 || chunks.len() > 32 {
        Err(bad_request_view("Provide 1–32 Markdown source chunks."@))
    } else if markdown_bytes(chunks, chunks.len()) > 204800 || maps.len() > 200 {
        Err(
            bad_request_view(
                "Import source is limited to 200 KiB and 200 mappings or parsed items."@,
            ),
        )
    } else {
        match chunk_paths(chunks, chunks.len()) {
            Err(e) => Err(e),
            Ok(paths) => match mappings_error(paths, maps, maps.len()) {
                Some(e) => Err(e),
                None => {
                    let docs = chunks_fold(source.context@, paths, markdowns(chunks), chunks.len());
                    let all = mappings_fold(source.context@, maps, maps.len(), docs);
                    if all.items.len() > 200 {
                        Err(bad_request_view("A preview may contain at most 200 items."@))
                    } else {
                        Ok(all)
                    }
                },
            },
        }
    }
}

/// Reads one document into the accumulated import. It stops early, reporting `true`, once
/// more than 200 items are gathered, since the preview is then refused whatever follows.
fn read_chunk(
    context: &str,
    paths: &Vec<Vec<char>>,
    k: usize,
    markdown: &str,
    acc: &mut ParsedImport,
) -> (stopped: bool)
    requires
        k < paths.len(),
    ensures
        !stopped ==> parse_view(*final(acc)) == chunk_step(
            context@,
            views(paths@),
            paths@[k as int]@,
            markdown@,
            parse_view(*old(acc)),
        ),
        stopped ==> chunk_step(
            context@,
            views(paths@),
            paths@[k as int]@,
            markdown@,
            parse_view(*old(acc)),
        ).items.len() > 200,
{
    let path = &paths[k];
    let ghost old_view = parse_view(*acc);
    let md = chars_of(markdown);
    let marker = chars_of("<!-- agent-coordinator-generated-export");
    if find_chars(&md, &marker, 0).is_some() {
        let ghost before = acc.conflicts@;
        acc.conflicts.push(
            ImportConflict {
                code: text_of("generated_projection"),
                source_path: string_from_chars(path),
                section_identity: text_of("(document)"),
                message: text_of(
                    "Generated exports are projections and cannot be imported as authority.",
                ),
                blocking: true,
            },
        );
        assert(conflict_views(acc.conflicts@) =~= conflict_views(before).push(
            conflict(
                "generated_projection"@,
                path@,
                "(document)"@,
                "Generated exports are projections and cannot be imported as authority."@,
            ),
        ));
    }
    let ghost acc1 = parse_view(*acc);
    let ghost doc0 = DocState { headings: seq![], pending: None };
    let lines = lines_chars(&md);
    assert(chunk_step(context@, views(paths@), path@, markdown@, old_view) == doc_fold(
        context@,
        views(paths@),
        path@,
        views(lines@),
        acc1,
        doc0,
    ).0);
    let mut headings: Vec<Vec<char>> = Vec::new();
    let mut pending: Option<Vec<char>> = None;
    assert(views(headings@) =~= seq![]);
    let mut i: usize = 0;
    assert(views(lines@).subrange(0, 0) =~= seq![]);
    while i < lines.len()
        invariant
            i <= lines.len(),
            k < paths.len(),
            old_view == parse_view(*old(acc)),
            path == &paths@[k as int],
            views(lines@) == lines_of(markdown@),
            chunk_step(context@, views(paths@), path@, markdown@, old_view) == doc_fold(
                context@,
                views(paths@),
                path@,
                views(lines@),
                acc1,
                doc0,
            ).0,
            (parse_view(*acc), DocState { headings: views(headings@), pending: opt_view(pending) })
                == doc_fold(
                context@,
                views(paths@),
                path@,
                views(lines@).subrange(0, i as int),
                acc1,
                doc0,
            ),
        decreases lines.len() - i,
    {
        let ghost pre = views(lines@).subrange(0, i as int);
        assert(views(lines@).subrange(0, i + 1).drop_last() =~= pre);
        assert(views(lines@).subrange(0, i + 1).last() == lines@[i as int]@);
        process_line(context, paths, path, i, &lines[i], acc, &mut headings, &mut pending);
        i = i + 1;
        if acc.items.len() > 200 {
            proof {
                assert(parse_view(*acc) == doc_fold(
                    context@,
                    views(paths@),
                    path@,
                    views(lines@).subrange(0, i as int),
                    acc1,
                    doc0,
                ).0);
                assert(parse_view(*acc).items.len() == acc.items.len());
                lemma_doc_fold_grows(
                    context@,
                    views(paths@),
                    path@,
                    views(lines@),
                    i as int,
                    acc1,
                    doc0,
                );
            }
            return true;
        }
    }
    assert(views(lines@).subrange(0, lines@.len() as int) =~= views(lines@));
    false
}

/// Checks one mapping, giving its normalized path.
fn check_mapping(paths: &Vec<Vec<char>>, m: &HistoricalMapping) -> (r: Result<String, AppError>)
    ensures
        match mapping_error(views(paths@), *m) {
            None => (r matches Ok(p) && p@ == normalized_path(m.path@)),
            Some(v) => (r matches Err(e) && e@ == v),
        },
{
    let path = normalize_path(m.path.as_str())?;
    if !contains_path(paths, &chars_of(path.as_str())) {
        return Err(
            AppError::bad_request(
                "Every historical mapping path must name a supplied source chunk.",
            ),
        );
    }
    check_bounded(m.section_identity.as_str(), "section identity", 512, true)?;
    check_bounded(m.title.as_str(), "historical title", 255, true)?;
    check_bounded(m.evidence.as_str(), "historical evidence", 8192, true)?;
    let d = m.disposition.as_str();
    if !(crate::text::str_eq(d, "closed") || crate::text::str_eq(d, "rejected")
        || crate::text::str_eq(d, "superseded")) {
        return Err(
            AppError::bad_request("Historical disposition must be closed, rejected, or superseded."),
        );
    }
    Ok(path)
}

/// Records a checked mapping.
fn add_mapping(context: &str, m: &HistoricalMapping, path: String, acc: &mut ParsedImport)
    requires
        path@ == normalized_path(m.path@),
    ensures
        parse_view(*final(acc)) == mapping_add(context@, *m, parse_view(*old(acc))),
{
    let title_key = normalize_identity_text(m.title.as_str());
    let identity = stable_identity(
        context,
        path.as_str(),
        m.section_identity.as_str(),
        title_key.as_str(),
    );
    match find_item(&acc.items, identity.as_str()) {
        Some(_) => {
            let ghost before = acc.conflicts@;
            acc.conflicts.push(
                ImportConflict {
                    code: text_of("ambiguous_source_identity"),
                    source_path: path,
                    section_identity: text_of(m.section_identity.as_str()),
                    message: text_of("Historical mapping duplicates another source identity."),
                    blocking: true,
                },
            );
            assert(conflict_views(acc.conflicts@) =~= conflict_views(before).push(
                conflict(
                    "ambiguous_source_identity"@,
                    normalized_path(m.path@),
                    m.section_identity@,
                    "Historical mapping duplicates another source identity."@,
                ),
            ));
        },
        None => {
            let ghost before = acc.items@;
            acc.items.push(
                ImportItem {
                    stable_identity: identity,
                    source_path: path,
                    section_identity: text_of(m.section_identity.as_str()),
                    title: text_of(m.title.as_str()),
                    record_kind: text_of("historical"),
                    disposition: text_of(m.disposition.as_str()),
                    source_line: 0,
                    evidence: text_of(m.evidence.as_str()),
                    prior_record_revision: None,
                },
            );
            assert(item_views(acc.items@) =~= item_views(before).push(
                ItemView {
                    stable_identity: identity@,
                    source_path: normalized_path(m.path@),
                    section_identity: m.section_identity@,
                    title: m.title@,
                    record_kind: "historical"@,
                    disposition: m.disposition@,
                    source_line: 0,
                    evidence: m.evidence@,
                    prior_record_revision: None,
                },
            ));
        },
    }
}

/// The normalized, distinct chunk paths, or the first chunk error.
fn chunk_paths_of(chunks: &Vec<MarkdownChunk>) -> (r: Result<Vec<Vec<char>>, AppError>)
    ensures
        match chunk_paths(chunks@, chunks.len() as nat) {
            Ok(ps) => (r matches Ok(v) && views(v@) == ps),
            Err(v) => (r matches Err(e) && e@ == v),
        },
{
    let mut paths: Vec<Vec<char>> = Vec::new();
    let mut k: usize = 0;
    assert(views(paths@) =~= seq![]);
    while k < chunks.len()
        invariant
            k <= chunks.len(),
            chunk_paths(chunks@, k as nat) == Ok::<Seq<Seq<char>>, ErrorView>(views(paths@)),
        decreases chunks.len() - k,
    {
        let chunk = &chunks[k];
        let path = match normalize_path(chunk.path.as_str()) {
            Ok(p) => p,
            Err(e) => {
                proof {
                    lemma_chunk_paths_stable(chunks@, (k + 1) as nat, chunks.len() as nat);
                }
                return Err(e);
            },
        };
        let checked = check_bounded(chunk.markdown.as_str(), "Markdown chunk", 204800, false);
        if checked.is_err() {
            proof {
                lemma_chunk_paths_stable(chunks@, (k + 1) as nat, chunks.len() as nat);
            }
            return Err(checked.unwrap_err());
        }
        let p = chars_of(path.as_str());
        if contains_path(&paths, &p) {
            proof {
                lemma_chunk_paths_stable(chunks@, (k + 1) as nat, chunks.len() as nat);
            }
            return Err(AppError::bad_request("Source chunk paths must be unique."));
        }
        let ghost before = paths@;
        paths.push(p);
        assert(views(paths@) =~= views(before).push(p@));
        k = k + 1;
    }
    Ok(paths)
}

/// Reads the chunks and mappings of an import preview.
pub fn parse_chunks(
    source: &ImportSource,
    chunks: &Vec<MarkdownChunk>,
    mappings: &Vec<HistoricalMapping>,
) -> (r: Result<ParsedImport, AppError>)
    ensures
        match parse_result(*source, chunks@, mappings@) {
            Ok(v) => (r matches Ok(p) && parse_view(p) == v),
            Err(v) => (r matches Err(e) && e@ == v),
        },
{
    if chunks.len() == 0 || chunks.len() > MAX_CHUNKS {
        return Err(AppError::bad_request("Provide 1–32 Markdown source chunks."));
    }
    let mut total: usize = 0;
    let mut k: usize = 0;
    while k < chunks.len()
        invariant
            k <= chunks.len(),
            1 <= chunks.len() <= 32,
            total as nat == markdown_bytes(chunks@, k as nat),
            total <= MAX_SOURCE_BYTES,
        decreases chunks.len() - k,
    {
        let n = crate::text::byte_len(chunks[k].markdown.as_str());
        if n > MAX_SOURCE_BYTES - total {
            proof {
                assert(markdown_bytes(chunks@, (k + 1) as nat) == total + n);
                lemma_markdown_bytes_grows(chunks@, (k + 1) as nat, chunks.len() as nat);
            }
            return Err(
                AppError::bad_request(
                    "Import source is limited to 200 KiB and 200 mappings or parsed items.",
                ),
            );
        }
        total = total + n;
        k = k + 1;
    }
    if mappings.len() > MAX_ITEMS {
        return Err(
            AppError::bad_request(
                "Import source is limited to 200 KiB and 200 mappings or parsed items.",
            ),
        );
    }
    let paths = chunk_paths_of(chunks)?;
    proof {
        lemma_chunk_paths_len(chunks@, chunks.len() as nat);
    }
    let context = source.context.as_str();
    let ghost docs = chunks_fold(context@, views(paths@), markdowns(chunks@), chunks.len() as nat);
    let mut acc = ParsedImport {
        items: Vec::new(),
        conflicts: Vec::new(),
        unresolved_links: Vec::new(),
    };
    assert(parse_view(acc) == empty_view()) by {
        assert(item_views(acc.items@) =~= seq![]);
        assert(conflict_views(acc.conflicts@) =~= seq![]);
        assert(link_views(acc.unresolved_links@) =~= seq![]);
    }
    let mut over = false;
    let mut c: usize = 0;
    while c < chunks.len() && !over
        invariant
            c <= chunks.len(),
            context@ == source.context@,
            1 <= chunks.len() <= 32,
            mappings.len() <= 200,
            markdown_bytes(chunks@, chunks.len() as nat) <= 204800,
            chunk_paths(chunks@, chunks.len() as nat) == Ok::<Seq<Seq<char>>, ErrorView>(views(paths@)),
            paths.len() == chunks.len(),
            docs == chunks_fold(context@, views(paths@), markdowns(chunks@), chunks.len() as nat),
            !over ==> parse_view(acc) == chunks_fold(
                context@,
                views(paths@),
                markdowns(chunks@),
                c as nat,
            ),
            over ==> docs.items.len() > 200,
        decreases chunks.len() - c,
    {
        assert(markdowns(chunks@)[c as int] == chunks@[c as int].markdown@);
        let stopped = read_chunk(context, &paths, c, chunks[c].markdown.as_str(), &mut acc);
        if stopped {
            over = true;
            proof {
                lemma_chunks_fold_grows(
                    context@,
                    views(paths@),
                    markdowns(chunks@),
                    (c + 1) as nat,
                    chunks.len() as nat,
                );
            }
        }
        c = c + 1;
    }
    let mut j: usize = 0;
    while j < mappings.len()
        invariant
            j <= mappings.len(),
            context@ == source.context@,
            1 <= chunks.len() <= 32,
            mappings.len() <= 200,
            markdown_bytes(chunks@, chunks.len() as nat) <= 204800,
            chunk_paths(chunks@, chunks.len() as nat) == Ok::<Seq<Seq<char>>, ErrorView>(views(paths@)),
            docs == chunks_fold(context@, views(paths@), markdowns(chunks@), chunks.len() as nat),
            mappings_error(views(paths@), mappings@, j as nat) is None,
            !over ==> parse_view(acc) == mappings_fold(context@, mappings@, j as nat, docs),
            over ==> mappings_fold(context@, mappings@, j as nat, docs).items.len() > 200,
        decreases mappings.len() - j,
    {
        let m = &mappings[j];
        let path = match check_mapping(&paths, m) {
            Ok(p) => p,
            Err(e) => {
                proof {
                    lemma_mappings_error_stable(
                        views(paths@),
                        mappings@,
                        (j + 1) as nat,
                        mappings.len() as nat,
                    );
                }
                return Err(e);
            },
        };
        if !over {
            add_mapping(context, m, path, &mut acc);
            if acc.items.len() > MAX_ITEMS {
                over = true;
            }
        } else {
            proof {
                lemma_mappings_fold_grows(context@, mappings@, j as nat, (j + 1) as nat, docs);
            }
        }
        j = j + 1;
    }
    if over || acc.items.len() > MAX_ITEMS {
        return Err(AppError::bad_request("A preview may contain at most 200 items."));
    }
    Ok(acc)
}

/// No two items share a stable identity.
pub open spec fn distinct_identities(items: Seq<ItemView>) -> bool {
    forall|i: int, j: int|
        0 <= i < j < items.len() ==> (#[trigger] items[i]).stable_identity != (#[trigger] items[j]).stable_identity
}

/// Every item comes from one of the given paths.
pub open spec fn items_from(items: Seq<ItemView>, paths: Seq<Seq<char>>) -> bool {
    forall|i: int| 0 <= i < items.len() ==> paths.contains(#[trigger] items[i].source_path)
}

proof fn lemma_push_new_identity(items: Seq<ItemView>, item: ItemView, paths: Seq<Seq<char>>)
    requires
        distinct_identities(items),
        items_from(items, paths),
        item_index(items, item.stable_identity) is None,
        paths.contains(item.source_path),
    ensures
        distinct_identities(items.push(item)),
        items_from(items.push(item), paths),
{
    lemma_item_index(items, item.stable_identity);
    let all = items.push(item);
    assert forall|i: int, j: int| 0 <= i < j < all.len() implies (#[trigger] all[i]).stable_identity
        != (#[trigger] all[j]).stable_identity by {
        if j == items.len() {
            assert(items[i].stable_identity != item.stable_identity);
        } else {
            assert(all[i] == items[i] && all[j] == items[j]);
        }
    }
    assert forall|i: int| 0 <= i < all.len() implies paths.contains(#[trigger] all[i].source_path) by {
        if i < items.len() {
            assert(all[i] == items[i]);
        }
    }
}

proof fn lemma_line_step_keeps(
    context: Seq<char>,
    known: Seq<Seq<char>>,
    path: Seq<char>,
    index: int,
    line: Seq<char>,
    acc: ParseView,
    doc: DocState,
)
    requires
        distinct_identities(acc.items),
        items_from(acc.items, known),
        known.contains(path),
    ensures
        distinct_identities(line_step(context, known, path, index, line, acc, doc).0.items),
        items_from(line_step(context, known, path, index, line, acc, doc).0.items, known),
{
    let trimmed = trim(line);
    let pending1 = match explicit_anchor_spec(trimmed) {
        Some(a) => Some(a),
        None => doc.pending,
    };
    let (headings, pending) = match heading_of(trimmed) {
        Some((level, text)) => (
            if level - 1 <= doc.headings.len() {
                doc.headings.take(level - 1)
            } else {
                doc.headings
            }.push(text),
            None,
        ),
        None => (doc.headings, pending1),
    };
    match checklist_spec(line) {
        None => {},
        Some((closed, raw)) => {
            let title = clean_title_spec(raw);
            let joined = join_seq(headings, " / "@);
            if !(title.len() == 0 || utf8_len(title) > 300) {
                let section = if headings.len() == 0 {
                    "(root)"@
                } else {
                    joined
                };
                let (anchor, pending2) = match explicit_anchor_spec(raw) {
                    Some(a) => (a, pending),
                    None => match pending {
                        Some(p) => (p, None),
                        None => (normalize_identity(title), None),
                    },
                };
                let identity = identity_of(context, path, section, anchor);
                if item_index(acc.items, identity) is None {
                    lemma_push_new_identity(
                        acc.items,
                        ItemView {
                            stable_identity: identity,
                            source_path: path,
                            section_identity: section,
                            title,
                            record_kind: "task"@,
                            disposition: if closed {
                                "closed"@
                            } else {
                                "planned"@
                            },
                            source_line: index + 1,
                            evidence: if closed {
                                closed_evidence()
                            } else {
                                ""@
                            },
                            prior_record_revision: None,
                        },
                        known,
                    );
                }
            }
        },
    }
}

proof fn lemma_doc_fold_keeps(
    context: Seq<char>,
    known: Seq<Seq<char>>,
    path: Seq<char>,
    lines: Seq<Seq<char>>,
    acc: ParseView,
    doc: DocState,
)
    requires
        distinct_identities(acc.items),
        items_from(acc.items, known),
        known.contains(path),
    ensures
        distinct_identities(doc_fold(context, known, path, lines, acc, doc).0.items),
        items_from(doc_fold(context, known, path, lines, acc, doc).0.items, known),
    decreases lines.len(),
{
    if lines.len() > 0 {
        lemma_doc_fold_keeps(context, known, path, lines.drop_last(), acc, doc);
        let (a, d) = doc_fold(context, known, path, lines.drop_last(), acc, doc);
        lemma_line_step_keeps(context, known, path, lines.len() - 1, lines.last(), a, d);
    }
}

proof fn lemma_chunks_fold_keeps(
    context: Seq<char>,
    paths: Seq<Seq<char>>,
    docs: Seq<Seq<char>>,
    n: nat,
)
    requires
        n <= paths.len(),
    ensures
        distinct_identities(chunks_fold(context, paths, docs, n).items),
        items_from(chunks_fold(context, paths, docs, n).items, paths),
    decreases n,
{
    if n > 0 {
        lemma_chunks_fold_keeps(context, paths, docs, (n - 1) as nat);
        let prev = chunks_fold(context, paths, docs, (n - 1) as nat);
        let md = docs[n - 1];
        let acc1 = if find_seq(md, generated_marker()) is Some {
            ParseView {
                conflicts: prev.conflicts.push(
                    conflict(
                        "generated_projection"@,
                        paths[n - 1],
                        "(document)"@,
                        "Generated exports are projections and cannot be imported as authority."@,
                    ),
                ),
                ..prev
            }
        } else {
            prev
        };
        assert(paths.contains(paths[n - 1]));
        lemma_doc_fold_keeps(
            context,
            paths,
            paths[n - 1],
            lines_of(md),
            acc1,
            DocState { headings: seq![], pending: None },
        );
    } else {
        assert(distinct_identities(empty_view().items));
    }
}

proof fn lemma_mappings_fold_keeps(
    context: Seq<char>,
    paths: Seq<Seq<char>>,
    maps: Seq<HistoricalMapping>,
    n: nat,
    acc: ParseView,
)
    requires
        n <= maps.len(),
        mappings_error(paths, maps, n) is None,
        distinct_identities(acc.items),
        items_from(acc.items, paths),
    ensures
        distinct_identities(mappings_fold(context, maps, n, acc).items),
        items_from(mappings_fold(context, maps, n, acc).items, paths),
    decreases n,
{
    if n > 0 {
        lemma_mappings_fold_keeps(context, paths, maps, (n - 1) as nat, acc);
        let prev = mappings_fold(context, maps, (n - 1) as nat, acc);
        let m = maps[n - 1];
        let path = normalized_path(m.path@);
        let identity = identity_of(context, path, m.section_identity@, normalize_identity(m.title@));
        if item_index(prev.items, identity) is None {
            lemma_push_new_identity(
                prev.items,
                ItemView {
                    stable_identity: identity,
                    source_path: path,
                    section_identity: m.section_identity@,
                    title: m.title@,
                    record_kind: "historical"@,
                    disposition: m.disposition@,
                    source_line: 0,
                    evidence: m.evidence@,
                    prior_record_revision: None,
                },
                paths,
            );
        }
    }
}

/// A preview that is accepted holds at most 200 items, no two with the same stable identity,
/// and every item comes from one of the supplied chunks' normalized paths.
pub proof fn law_preview_items_are_distinct_and_sourced(
    source: ImportSource,
    chunks: Seq<MarkdownChunk>,
    maps: Seq<HistoricalMapping>,
)
    requires
        parse_result(source, chunks, maps) is Ok,
    ensures
        ({
            let v = parse_result(source, chunks, maps)->Ok_0;
            let paths = chunk_paths(chunks, chunks.len())->Ok_0;
            &&& v.items.len() <= 200
            &&& distinct_identities(v.items)
            &&& items_from(v.items, paths)
        }),
{
    let paths = chunk_paths(chunks, chunks.len())->Ok_0;
    lemma_chunk_paths_len(chunks, chunks.len());
    lemma_chunks_fold_keeps(source.context@, paths, markdowns(chunks), chunks.len());
    let docs = chunks_fold(source.context@, paths, markdowns(chunks), chunks.len());
    lemma_mappings_fold_keeps(source.context@, paths, maps, maps.len(), docs);
}

/// The request to apply a saved preview.
pub struct ApplyRequest {
    pub preview_digest: String,
    pub expected_project_event_revision: i64,
}

/// What the service knows of a saved preview when it is applied.
pub struct SavedPreview {
    pub digest: String,
    pub project_event_revision: i64,
    pub applied: bool,
    pub has_blocking_conflict: bool,
}

/// Why a preview may not be applied, in the order the checks are made, or `None`.
pub open spec fn apply_refusal(
    saved: SavedPreview,
    request: ApplyRequest,
    current_event_revision: i64,
) -> Option<ErrorView> {
    if saved.applied {
        Some(
            crate::error::conflict_view(
                "import_already_applied"@,
                "This preview was already applied; retry with its original idempotency key."@,
            ),
        )
    } else if saved.digest@ != request.preview_digest@ || saved.project_event_revision
        != request.expected_project_event_revision {
        Some(
            crate::error::conflict_view(
                "preview_mismatch"@,
                "Apply must name the exact saved preview digest and project event revision."@,
            ),
        )
    } else if current_event_revision != saved.project_event_revision {
        Some(
            crate::error::conflict_view(
                "stale_import_preview"@,
                "Project state changed after preview; create and inspect a new preview."@,
            ),
        )
    } else if saved.has_blocking_conflict {
        Some(
            crate::error::conflict_view(
                "import_conflicts"@,
                "Resolve blocking preview conflicts before applying."@,
            ),
        )
    } else {
        None
    }
}

/// Checks that a saved preview may be applied now.
pub fn check_apply(saved: &SavedPreview, request: &ApplyRequest, current_event_revision: i64) -> (r:
    Result<(), AppError>)
    ensures
        match apply_refusal(*saved, *request, current_event_revision) {
            None => r is Ok,
            Some(v) => (r matches Err(e) && e@ == v),
        },
{
    if saved.applied {
        return Err(
            AppError::conflict(
                "import_already_applied",
                "This preview was already applied; retry with its original idempotency key.",
            ),
        );
    }
    if !crate::text::str_eq(saved.digest.as_str(), request.preview_digest.as_str())
        || saved.project_event_revision != request.expected_project_event_revision {
        return Err(
            AppError::conflict(
                "preview_mismatch",
                "Apply must name the exact saved preview digest and project event revision.",
            ),
        );
    }
    if current_event_revision != saved.project_event_revision {
        return Err(
            AppError::conflict(
                "stale_import_preview",
                "Project state changed after preview; create and inspect a new preview.",
            ),
        );
    }
    if saved.has_blocking_conflict {
        return Err(
            AppError::conflict(
                "import_conflicts",
                "Resolve blocking preview conflicts before applying.",
            ),
        );
    }
    Ok(())
}

/// Every previewed item's import record still has the revision it had at preview time
/// (`current[i]` is the record revision of `items[i]` now, `None` without a record).
pub open spec fn records_unchanged(items: Seq<ImportItem>, current: Seq<Option<i64>>) -> bool {
    forall|i: int| 0 <= i < items.len() ==> #[trigger] current[i] == items[i].prior_record_revision
}

/// Applying refuses once an imported record changed after the preview.
pub fn check_records_unchanged(items: &Vec<ImportItem>, current: &Vec<Option<i64>>) -> (r: Result<
    (),
    AppError,
>)
    requires
        current.len() == items.len(),
    ensures
        r is Ok <==> records_unchanged(items@, current@),
        r matches Err(e) ==> e@ == crate::error::conflict_view(
            "stale_import_record"@,
            "An imported record changed after preview; create and inspect a new preview."@,
        ),
{
    let mut i: usize = 0;
    while i < items.len()
        invariant
            i <= items.len(),
            current.len() == items.len(),
            forall|j: int| 0 <= j < i ==> #[trigger] current@[j] == items@[j].prior_record_revision,
        decreases items.len() - i,
    {
        if current[i] != items[i].prior_record_revision {
            return Err(
                AppError::conflict(
                    "stale_import_record",
                    "An imported record changed after preview; create and inspect a new preview.",
                ),
            );
        }
        i = i + 1;
    }
    Ok(())
}

/// The state of a service task linked to an imported record.
pub struct LinkedTask {
    pub revision: i64,
    pub lifecycle: String,
    pub title: String,
    pub has_current_attempt: bool,
    pub has_attempt_history: bool,
    pub has_workflow: bool,
}

/// The import still manages a task that is planned or done and was never worked on.
pub open spec fn import_managed(t: LinkedTask) -> bool {
    (t.lifecycle@ == "planned"@ || t.lifecycle@ == "done"@) && !t.has_current_attempt
        && !t.has_attempt_history && !t.has_workflow
}

/// A preview flags a linked task that changed since the import or left import management.
pub open spec fn newer_service_state(revision_at_apply: i64, t: LinkedTask) -> bool {
    t.revision > revision_at_apply || !import_managed(t)
}

pub fn service_state_is_newer(revision_at_apply: i64, task: &LinkedTask) -> (r: bool)
    ensures
        r == newer_service_state(revision_at_apply, *task),
{
    let lifecycle = task.lifecycle.as_str();
    let managed = (crate::text::str_eq(lifecycle, "planned") || crate::text::str_eq(lifecycle, "done"))
        && !task.has_current_attempt && !task.has_attempt_history && !task.has_workflow;
    task.revision > revision_at_apply || !managed
}

/// How re-applying an item treats the record's linked task.
pub struct TaskReconciliation {
    /// The record's disposition is, or becomes, closed.
    pub closed: bool,
    /// The task is rewritten to this lifecycle and title, at the next revision.
    pub rewrite: Option<String>,
    /// The task's later service edits are kept as they are.
    pub preserved: bool,
}

pub open spec fn reconciliation(
    record_closed: bool,
    item_closed: bool,
    revision_at_apply: Option<i64>,
    title: Seq<char>,
    t: LinkedTask,
) -> (bool, Option<Seq<char>>, bool) {
    let closed0 = record_closed || item_closed;
    if revision_at_apply == Some(t.revision) && import_managed(t) {
        let closed = t.lifecycle@ == "done"@ || closed0;
        let lifecycle = if closed {
            "done"@
        } else {
            "planned"@
        };
        let rewrite = if t.title@ != title || t.lifecycle@ != lifecycle {
            Some(lifecycle)
        } else {
            None
        };
        (closed, rewrite, false)
    } else {
        (t.lifecycle@ == "done"@ || closed0, None, true)
    }
}

/// Re-applying an item to a record linked to a task: a task the import still manages
/// follows the item (closed records become done); a task with later service work is kept.
pub fn reconcile_task(
    record_closed: bool,
    item_closed: bool,
    revision_at_apply: Option<i64>,
    title: &str,
    task: &LinkedTask,
) -> (r: TaskReconciliation)
    ensures
        ({
            let (closed, rewrite, preserved) = reconciliation(
                record_closed,
                item_closed,
                revision_at_apply,
                title@,
                *task,
            );
            &&& r.closed == closed
            &&& r.preserved == preserved
            &&& match rewrite {
                Some(l) => (r.rewrite matches Some(s) && s@ == l),
                None => r.rewrite is None,
            }
        }),
{
    let closed0 = record_closed || item_closed;
    let lifecycle = task.lifecycle.as_str();
    let done = crate::text::str_eq(lifecycle, "done");
    let managed = (crate::text::str_eq(lifecycle, "planned") || done) && !task.has_current_attempt
        && !task.has_attempt_history && !task.has_workflow;
    let same_revision = match revision_at_apply {
        Some(r) => r == task.revision,
        None => false,
    };
    if same_revision && managed {
        let closed = done || closed0;
        let target = if closed {
            text_of("done")
        } else {
            text_of("planned")
        };
        let rewrite = if !crate::text::str_eq(task.title.as_str(), title) || !crate::text::str_eq(
            lifecycle,
            target.as_str(),
        ) {
            Some(target)
        } else {
            None
        };
        TaskReconciliation { closed, rewrite, preserved: false }
    } else {
        TaskReconciliation { closed: done || closed0, rewrite: None, preserved: true }
    }
}

/// Re-applying an item brings a task the import still manages, at the revision the import
/// left it, to the item: afterwards it carries the item's title and is `done` exactly when
/// the record or item is closed or the task was already done (`planned` otherwise); it is
/// rewritten only when its title or lifecycle differs. A task with later service work is
/// never rewritten and is kept.
pub proof fn law_reapply_brings_managed_tasks_to_the_item(
    record_closed: bool,
    item_closed: bool,
    revision_at_apply: Option<i64>,
    title: Seq<char>,
    t: LinkedTask,
)
    ensures
        ({
            let (closed, rewrite, preserved) = reconciliation(
                record_closed,
                item_closed,
                revision_at_apply,
                title,
                t,
            );
            let target = if closed {
                "done"@
            } else {
                "planned"@
            };
            if revision_at_apply == Some(t.revision) && import_managed(t) {
                &&& !preserved
                &&& closed == (t.lifecycle@ == "done"@ || record_closed || item_closed)
                &&& match rewrite {
                    Some(l) => l == target && (t.title@ != title || t.lifecycle@ != target),
                    None => t.title@ == title && t.lifecycle@ == target,
                }
            } else {
                &&& preserved
                &&& rewrite is None
                &&& closed == (t.lifecycle@ == "done"@ || record_closed || item_closed)
            }
        }),
{
}

/// The knowledge kind and status a historical disposition is kept as.
pub open spec fn historical_knowledge(disposition: Seq<char>) -> (Seq<char>, Seq<char>) {
    if disposition == "rejected"@ {
        ("rejected_approach"@, "validated"@)
    } else if disposition == "superseded"@ {
        ("checkpoint"@, "superseded"@)
    } else {
        ("fact"@, "validated"@)
    }
}

pub fn historical_knowledge_kind(disposition: &str) -> (r: (String, String))
    ensures
        r.0@ == historical_knowledge(disposition@).0,
        r.1@ == historical_knowledge(disposition@).1,
{
    if crate::text::str_eq(disposition, "rejected") {
        (text_of("rejected_approach"), text_of("validated"))
    } else if crate::text::str_eq(disposition, "superseded") {
        (text_of("checkpoint"), text_of("superseded"))
    } else {
        (text_of("fact"), text_of("validated"))
    }
}

/// An export cursor `REVISION~KEY`: the key after the first `~`, valid only for the same
/// snapshot revision.
pub open spec fn export_cursor_result(cursor: Seq<char>, snapshot: i64) -> Result<Seq<char>, ErrorView> {
    if !bounded_ok(cursor, 512, true) {
        Err(bad_request_view(bounded_message("export cursor"@, 512, true)))
    } else {
        match crate::text::first_index(cursor, '~') {
            None => Err(bad_request_view("Invalid export cursor."@)),
            Some(k) => if crate::text::parse_i64_text(cursor.subrange(0, k)) != Some(snapshot as int) {
                Err(
                    crate::error::conflict_view(
                        "export_snapshot_changed"@,
                        "Project records changed between export pages; restart the export."@,
                    ),
                )
            } else {
                Ok(cursor.subrange(k + 1, cursor.len() as int))
            },
        }
    }
}

pub fn export_cursor(cursor: &str, snapshot: i64) -> (r: Result<String, AppError>)
    ensures
        match export_cursor_result(cursor@, snapshot) {
            Ok(key) => (r matches Ok(s) && s@ == key),
            Err(v) => (r matches Err(e) && e@ == v),
        },
{
    check_bounded(cursor, "export cursor", 512, true)?;
    let chars = chars_of(cursor);
    let k = match find_char(&chars, '~') {
        None => {
            return Err(AppError::bad_request("Invalid export cursor."));
        },
        Some(k) => k,
    };
    proof {
        crate::text::lemma_first_index(chars@, '~');
    }
    let same = match crate::text::parse_i64(&slice_chars(&chars, 0, k)) {
        Some(r) => r == snapshot,
        None => false,
    };
    if !same {
        return Err(
            AppError::conflict(
                "export_snapshot_changed",
                "Project records changed between export pages; restart the export.",
            ),
        );
    }
    Ok(string_from_chars(&slice_chars(&chars, k + 1, chars.len())))
}
/// The cursor of the next export page: the snapshot revision, `~`, then the last
/// record's sort key.
pub open spec fn export_cursor_text(snapshot: i64, key: Seq<char>) -> Seq<char> {
    crate::history::signed_decimal(snapshot as int) + "~"@ + key
}

pub fn export_next_cursor(snapshot: i64, key: &str) -> (r: String)
    ensures
        r@ == export_cursor_text(snapshot, key@),
{
    let digits = string_from_chars(&crate::history::i64_text(snapshot));
    let head = crate::text::concat(digits.as_str(), "~");
    crate::text::concat(head.as_str(), key)
}

/// A cursor the export hands out reads back, on the same snapshot, as the key it was made
/// from (within the cursor's 512-byte bound).
pub proof fn law_export_cursor_reads_back(snapshot: i64, key: Seq<char>)
    requires
        bounded_ok(export_cursor_text(snapshot, key), 512, true),
    ensures
        export_cursor_result(export_cursor_text(snapshot, key), snapshot) == Ok::<
            Seq<char>,
            ErrorView,
        >(key),
{
    reveal_strlit("~");
    assert("~"@ =~= seq!['~']);
    crate::text::lemma_split_after_signed_decimal(snapshot, '~', key);
}

/// One record of an export page.
pub struct ExportRecord {
    pub kind: String,
    pub title: String,
    pub status: String,
    pub body: String,
}

/// The first line of every export: the generated-export marker with the project, the event
/// revision the page was read at and when it was made, then the page title.
pub open spec fn export_header(project: Seq<char>, snapshot: int, generated_at: Seq<char>) -> Seq<char> {
    generated_marker() + " project="@ + project + " event_revision="@
        + crate::history::signed_decimal(snapshot) + " generated_at="@ + generated_at
        + " -->\n\n# Agent Coordinator export\n\n"@
}

/// A record's section: its kind and title as a heading, its status, then its body.
pub open spec fn export_section(r: ExportRecord) -> Seq<char> {
    "## "@ + r.kind@ + ": "@ + r.title@ + "\n\nStatus: `"@ + r.status@ + "`\n\n"@ + r.body@
        + "\n\n"@
}

pub open spec fn export_sections(records: Seq<ExportRecord>, n: nat) -> Seq<char>
    decreases n,
{
    if n == 0 {
        seq![]
    } else {
        export_sections(records, (n - 1) as nat) + export_section(records[n - 1])
    }
}

pub open spec fn export_text(project: Seq<char>, snapshot: int, generated_at: Seq<char>, records: Seq<
    ExportRecord,
>) -> Seq<char> {
    export_header(project, snapshot, generated_at) + export_sections(records, records.len())
}

/// The Markdown of an export page.
pub fn export_markdown(project: &str, snapshot: i64, generated_at: &str, records: &Vec<ExportRecord>) -> (r:
    String)
    ensures
        r@ == export_text(project@, snapshot as int, generated_at@, records@),
{
    let rev = crate::text::string_from_chars(&crate::history::i64_text(snapshot));
    let mut m = "<!-- agent-coordinator-generated-export".to_owned();
    m.append(" project=");
    m.append(project);
    m.append(" event_revision=");
    m.append(rev.as_str());
    m.append(" generated_at=");
    m.append(generated_at);
    m.append(" -->\n\n# Agent Coordinator export\n\n");
    assert(m@ =~= export_header(project@, snapshot as int, generated_at@) + export_sections(records@, 0));
    let mut i: usize = 0;
    while i < records.len()
        invariant
            i <= records.len(),
            m@ == export_header(project@, snapshot as int, generated_at@) + export_sections(records@, i as nat),
        decreases records.len() - i,
    {
        let r = &records[i];
        let ghost before = m@;
        m.append("## ");
        m.append(r.kind.as_str());
        m.append(": ");
        m.append(r.title.as_str());
        m.append("\n\nStatus: `");
        m.append(r.status.as_str());
        m.append("`\n\n");
        m.append(r.body.as_str());
        m.append("\n\n");
        assert(m@ =~= before + export_section(records@[i as int]));
        i = i + 1;
    }
    m
}

/// A generated export is never taken as authority: read back as an import document, every
/// export page carries the marker that flags it as a generated projection.
pub proof fn law_exports_are_recognized_on_reimport(
    project: Seq<char>,
    snapshot: int,
    generated_at: Seq<char>,
    records: Seq<ExportRecord>,
)
    ensures
        find_seq(export_text(project, snapshot, generated_at, records), generated_marker()) is Some,
{
    let t = export_text(project, snapshot, generated_at, records);
    let p = generated_marker();
    assert(t.subrange(0, p.len() as int) =~= p);
}

} // verus!
