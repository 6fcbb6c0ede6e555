//! Patch files: the names under which patches are stored, the patch names
//! found among the files of the patch directory, and patch errors.

use vstd::prelude::*;
use crate::text::{chars_of, lex_le, push_char, sort_lex, sorted_lex, string_from_chars, views};

verus! {

/// What `char::is_alphanumeric` returns for `c`.
pub uninterp spec fn char_is_alphanumeric(c: char) -> bool;

/// An ASCII letter or digit.
pub open spec fn is_ascii_alphanumeric(c: char) -> bool {
    ('a' <= c && c <= 'z') || ('A' <= c && c <= 'Z') || ('0' <= c && c <= '9')
}

/// `char::is_alphanumeric`.
///
/// Trusted: the result is `char_is_alphanumeric(c)`; for an ASCII character
/// it holds exactly of the letters and digits (an ASCII character is
/// alphabetic or numeric in Unicode exactly when it is one of those).
#[verifier::external_body]
fn is_alphanumeric(c: char) -> (r: bool)
    ensures
        r == char_is_alphanumeric(c),
        c < '\u{80}' ==> (r <==> is_ascii_alphanumeric(c)),
{
    c.is_alphanumeric()
}

/// Whether `char::is_alphanumeric` holds of `c`, decided for ASCII
/// characters (letters and digits only) and named for the others.
pub open spec fn name_char_is_alphanumeric(c: char) -> bool {
    if '\u{80}' > c {
        is_ascii_alphanumeric(c)
    } else {
        char_is_alphanumeric(c)
    }
}

/// A character that may stand in a patch file name.
pub open spec fn allowed_name_char(c: char) -> bool {
    name_char_is_alphanumeric(c) || c == '-' || c == '_' || c == ' '
}

/// An allowed character stays; any other becomes `_`.
pub open spec fn sanitize_char(c: char) -> char {
    if allowed_name_char(c) {
        c
    } else {
        '_'
    }
}

/// `s` without its leading and trailing spaces.
pub open spec fn trim_spaces(s: Seq<char>) -> Seq<char>
    decreases s.len(),
{
    if s.len() > 0 && s[0] == ' ' {
        trim_spaces(s.drop_first())
    } else if s.len() > 0 && s.last() == ' ' {
        trim_spaces(s.drop_last())
    } else {
        s
    }
}

/// The sanitized form of a patch name.
pub open spec fn spec_sanitize(name: Seq<char>) -> Seq<char> {
    trim_spaces(name.map_values(|c: char| sanitize_char(c)))
}

/// Trimming removes exactly the spaces before `start` and from `end` on,
/// where `start` is the first non-space and `end - 1` the last one.
proof fn lemma_trim_spaces_range(s: Seq<char>, start: int, end: int)
    requires
        0 <= start <= end <= s.len(),
        forall|k: int| 0 <= k < start ==> s[k] == ' ',
        forall|k: int| end <= k < s.len() ==> s[k] == ' ',
        start < s.len() ==> s[start] != ' ',
        start < end ==> s[end - 1] != ' ',
    ensures
        trim_spaces(s) == s.subrange(start, end),
    decreases s.len(),
{
    if s.len() > 0 && s[0] == ' ' {
        assert(start > 0);
        let t = s.drop_first();
        assert forall|k: int| 0 <= k < start - 1 implies t[k] == ' ' by {
            assert(t[k] == s[k + 1]);
        }
        assert forall|k: int| end - 1 <= k < t.len() implies t[k] == ' ' by {
            assert(t[k] == s[k + 1]);
        }
        lemma_trim_spaces_range(t, start - 1, end - 1);
        assert(t.subrange(start - 1, end - 1) =~= s.subrange(start, end));
    } else if s.len() > 0 && s.last() == ' ' {
        assert(start == 0);
        assert(end < s.len());
        let t = s.drop_last();
        lemma_trim_spaces_range(t, start, end);
        assert(t.subrange(start, end) =~= s.subrange(start, end));
    } else {
        if s.len() > 0 {
            assert(start == 0);
            assert(end == s.len());
        } else {
            assert(start == 0 && end == 0);
        }
        assert(s.subrange(start, end) =~= s);
    }
}

/// Replaces every character of `name` other than a letter, a digit, `-`, `_`
/// or a space by `_`, then removes leading and trailing spaces.
pub fn sanitize(name: &str) -> (r: String)
    ensures
        r@ == spec_sanitize(name@),
        forall|i: int| 0 <= i < r@.len() ==> allowed_name_char(#[trigger] r@[i]),
        r@.len() > 0 ==> r@[0] != ' ' && r@.last() != ' ',
        forall|i: int|
            0 <= i < name@.len() ==> (name_char_is_alphanumeric(#[trigger] name@[i])
                <==> char_is_alphanumeric(name@[i])),
{
    let chars = chars_of(name);
    let mut mapped: Vec<char> = Vec::new();
    for i in 0..chars.len()
        invariant
            chars@ == name@,
            mapped@ == name@.take(i as int).map_values(|c: char| sanitize_char(c)),
            forall|k: int|
                0 <= k < i ==> (name_char_is_alphanumeric(#[trigger] name@[k])
                    <==> char_is_alphanumeric(name@[k])),
    {
        let c = chars[i];
        let alphanumeric = is_alphanumeric(c);
        assert(alphanumeric == name_char_is_alphanumeric(c));
        assert(name@[i as int] == c);
        let keep = alphanumeric || c == '-' || c == '_' || c == ' ';
        mapped.push(if keep { c } else { '_' });
        assert(name@.take(i + 1).map_values(|c: char| sanitize_char(c)) =~= name@.take(
            i as int,
        ).map_values(|c: char| sanitize_char(c)).push(sanitize_char(c)));
    }
    assert(name@.take(name@.len() as int) =~= name@);
    let ghost m = mapped@;
    let mut start: usize = 0;
    while start < mapped.len() && mapped[start] == ' '
        invariant
            mapped@ == m,
            start <= m.len(),
            forall|k: int| 0 <= k < start ==> m[k] == ' ',
        decreases m.len() - start,
    {
        start += 1;
    }
    let mut end: usize = mapped.len();
    while end > start && mapped[end - 1] == ' '
        invariant
            mapped@ == m,
            start <= end <= m.len(),
            forall|k: int| end <= k < m.len() ==> m[k] == ' ',
        decreases end,
    {
        end -= 1;
    }
    proof {
        lemma_trim_spaces_range(m, start as int, end as int);
    }
    let mut r = String::new();
    for i in start..end
        invariant
            mapped@ == m,
            start <= end <= m.len(),
            r@ == m.subrange(start as int, i as int),
    {
        push_char(&mut r, mapped[i]);
        assert(m.subrange(start as int, i + 1) =~= m.subrange(start as int, i as int).push(m[i as int]));
    }
    proof {
        assert forall|i: int| 0 <= i < r@.len() implies allowed_name_char(#[trigger] r@[i]) by {
            assert(r@[i] == m[start + i]);
            assert(m[start + i] == sanitize_char(name@[start + i]));
        }
    }
    r
}

/// Trimming keeps a contiguous run of `s` that neither starts nor ends with
/// a space, and removes only spaces around it.
proof fn lemma_trim_spaces_shape(s: Seq<char>) -> (range: (int, int))
    ensures
        0 <= range.0 <= range.1 <= s.len(),
        trim_spaces(s) == s.subrange(range.0, range.1),
        forall|k: int| 0 <= k < range.0 ==> s[k] == ' ',
        forall|k: int| range.1 <= k < s.len() ==> s[k] == ' ',
        trim_spaces(s).len() > 0 ==> trim_spaces(s)[0] != ' ' && trim_spaces(s).last() != ' ',
    decreases s.len(),
{
    if s.len() > 0 && s[0] == ' ' {
        let t = s.drop_first();
        let r = lemma_trim_spaces_shape(t);
        assert(t.subrange(r.0, r.1) =~= s.subrange(r.0 + 1, r.1 + 1));
        assert forall|k: int| 0 <= k < r.0 + 1 implies s[k] == ' ' by {
            if k > 0 {
                assert(s[k] == t[k - 1]);
            }
        }
        assert forall|k: int| r.1 + 1 <= k < s.len() implies s[k] == ' ' by {
            assert(s[k] == t[k - 1]);
        }
        (r.0 + 1, r.1 + 1)
    } else if s.len() > 0 && s.last() == ' ' {
        let t = s.drop_last();
        let r = lemma_trim_spaces_shape(t);
        assert(t.subrange(r.0, r.1) =~= s.subrange(r.0, r.1));
        assert forall|k: int| 0 <= k < r.0 implies s[k] == ' ' by {
            assert(s[k] == t[k]);
        }
        assert forall|k: int| r.1 <= k < s.len() implies s[k] == ' ' by {
            if k < t.len() {
                assert(s[k] == t[k]);
            }
        }
        r
    } else {
        assert(s.subrange(0, s.len() as int) =~= s);
        (0, s.len() as int)
    }
}

/// Sanitizing keeps every letter and digit (as `char::is_alphanumeric`
/// defines them), `-`, `_` and every space but those at the ends; it turns
/// every other character into `_`; and it removes only spaces, from the
/// two ends: the result is a contiguous run of the mapped name.
pub proof fn sanitize_keeps_alphanumerics(name: Seq<char>, c: char)
    ensures
        '\u{80}' > c ==> (sanitize_char(c) == c <==> (is_ascii_alphanumeric(c) || c == '-' || c == '_' || c == ' ')),
        c >= '\u{80}' ==> (sanitize_char(c) == c <==> char_is_alphanumeric(c)),
        sanitize_char(c) != c ==> sanitize_char(c) == '_',
        exists|a: int, b: int|
            0 <= a <= b <= name.len() && spec_sanitize(name) == name.subrange(a, b).map_values(
                |x: char| sanitize_char(x),
            ) && (forall|k: int| 0 <= k < a ==> sanitize_char(#[trigger] name[k]) == ' ') && (
            forall|k: int| b <= k < name.len() ==> sanitize_char(#[trigger] name[k]) == ' '),
{
    let m = name.map_values(|x: char| sanitize_char(x));
    let r = lemma_trim_spaces_shape(m);
    assert(m.subrange(r.0, r.1) =~= name.subrange(r.0, r.1).map_values(|x: char| sanitize_char(x)));
    assert forall|k: int| 0 <= k < r.0 implies sanitize_char(#[trigger] name[k]) == ' ' by {
        assert(m[k] == sanitize_char(name[k]));
    }
    assert forall|k: int| r.1 <= k < name.len() implies sanitize_char(#[trigger] name[k]) == ' ' by {
        assert(m[k] == sanitize_char(name[k]));
    }
}

/// Sanitizing a sanitized name changes nothing: its characters are all
/// allowed, and it neither starts nor ends with a space.
pub proof fn sanitize_is_idempotent(name: Seq<char>)
    ensures
        spec_sanitize(spec_sanitize(name)) == spec_sanitize(name),
{
    let m = name.map_values(|c: char| sanitize_char(c));
    let t = spec_sanitize(name);
    let r = lemma_trim_spaces_shape(m);
    assert forall|i: int| 0 <= i < t.len() implies allowed_name_char(#[trigger] t[i]) by {
        assert(t[i] == m[r.0 + i]);
    }
    let tm = t.map_values(|c: char| sanitize_char(c));
    assert(tm =~= t);
}

/// A sanitized name holds no path separator, dot or colon, so the file
/// name built from it stays inside the patch directory.
pub proof fn sanitized_name_has_no_path_chars(name: Seq<char>)
    ensures
        forall|i: int|
            0 <= i < spec_sanitize(name).len() ==> {
                let c = #[trigger] spec_sanitize(name)[i];
                c != '/' && c != '\\' && c != '.' && c != ':'
            },
{
    let m = name.map_values(|c: char| sanitize_char(c));
    let r = lemma_trim_spaces_shape(m);
    assert forall|i: int| 0 <= i < spec_sanitize(name).len() implies allowed_name_char(
        #[trigger] spec_sanitize(name)[i],
    ) by {
        assert(spec_sanitize(name)[i] == m[r.0 + i]);
    }
}

/// A name made only of letters, digits, `-`, `_` and inner spaces is its
/// own sanitized form, so a patch saved under it is listed under it.
pub proof fn clean_name_is_unchanged(name: Seq<char>)
    requires
        forall|i: int| 0 <= i < name.len() ==> allowed_name_char(#[trigger] name[i]),
        name.len() > 0 ==> name[0] != ' ' && name.last() != ' ',
    ensures
        spec_sanitize(name) == name,
{
    assert(name.map_values(|c: char| sanitize_char(c)) =~= name);
}

/// The file name under which a patch called `name` is stored.
pub open spec fn spec_patch_file_name(name: Seq<char>) -> Seq<char> {
    spec_sanitize(name) + toml_suffix()
}

/// The file name under which a patch called `name` is stored: the sanitized
/// name followed by `.toml`.
pub fn patch_file_name(name: &str) -> (r: String)
    ensures
        r@ == spec_patch_file_name(name@),
{
    let mut r = sanitize(name);
    let ghost base = r@;
    assert(base == spec_sanitize(name@));
    let ext = ".toml";
    proof {
        reveal_strlit(".toml");
        assert(ext@ =~= toml_suffix());
    }
    r.append(ext);
    assert(r@ == base + toml_suffix());
    r
}

/// The extension of patch files, with its dot.
pub open spec fn toml_suffix() -> Seq<char> {
    seq!['.', 't', 'o', 'm', 'l']
}

/// The patch name that a file name stands for: the stem of a file name whose
/// extension is `toml` (a name such as `.toml`, whose only dot leads it, has
/// no extension).
pub open spec fn toml_stem(file_name: Seq<char>) -> Option<Seq<char>> {
    let n = file_name.len() as int;
    if n > 5 && file_name.subrange(n - 5, n) == toml_suffix() {
        Some(file_name.subrange(0, n - 5))
    } else {
        None
    }
}

/// The stems of the `.toml` files among `file_names`, in order.
pub open spec fn toml_stems(file_names: Seq<Seq<char>>) -> Seq<Seq<char>>
    decreases file_names.len(),
{
    if file_names.len() == 0 {
        Seq::empty()
    } else {
        let rest = toml_stems(file_names.drop_last());
        match toml_stem(file_names.last()) {
            Some(stem) => rest.push(stem),
            None => rest,
        }
    }
}

/// The characters of each string.
pub open spec fn string_views(v: Seq<String>) -> Seq<Seq<char>> {
    v.map_values(|s: String| s@)
}

/// The patch names stored in a directory holding files called `file_names`:
/// the stems of the `.toml` files, sorted.
pub fn patch_names(file_names: &Vec<String>) -> (r: Vec<String>)
    ensures
        string_views(r@).to_multiset() == toml_stems(string_views(file_names@)).to_multiset(),
        sorted_lex(string_views(r@)),
{
    let mut stems: Vec<Vec<char>> = Vec::new();
    for i in 0..file_names.len()
        invariant
            views(stems@) == toml_stems(string_views(file_names@.take(i as int))),
    {
        let mut chars = chars_of(file_names[i].as_str());
        let n = chars.len();
        let ghost name = chars@;
        assert(string_views(file_names@.take(i + 1)).drop_last() =~= string_views(
            file_names@.take(i as int),
        ));
        assert(string_views(file_names@.take(i + 1)).last() == name);
        if n > 5 && chars[n - 5] == '.' && chars[n - 4] == 't' && chars[n - 3] == 'o'
            && chars[n - 2] == 'm' && chars[n - 1] == 'l' {
            assert(name.subrange(n - 5, n as int) =~= toml_suffix());
            chars.truncate(n - 5);
            let ghost old_stems = stems@;
            stems.push(chars);
            assert(views(stems@) =~= views(old_stems).push(name.subrange(0, n - 5)));
        } else {
            assert(n > 5 ==> name.subrange(n - 5, n as int)[0] == name[n - 5]);
            assert(n > 5 ==> name.subrange(n - 5, n as int)[1] == name[n - 4]);
            assert(n > 5 ==> name.subrange(n - 5, n as int)[2] == name[n - 3]);
            assert(n > 5 ==> name.subrange(n - 5, n as int)[3] == name[n - 2]);
            assert(n > 5 ==> name.subrange(n - 5, n as int)[4] == name[n - 1]);
            assert(toml_stem(name) is None);
        }
    }
    assert(file_names@.take(file_names@.len() as int) =~= file_names@);
    let sorted = sort_lex(&stems);
    let mut r: Vec<String> = Vec::new();
    for i in 0..sorted.len()
        invariant
            string_views(r@) == views(sorted@).take(i as int),
    {
        let s = string_from_chars(sorted[i].as_slice());
        assert(s@ == views(sorted@)[i as int]);
        let ghost old_r = r@;
        r.push(s);
        assert(string_views(r@) =~= string_views(old_r).push(s@));
        assert(string_views(r@) =~= views(sorted@).take(i + 1));
    }
    assert(views(sorted@).take(sorted@.len() as int) =~= views(sorted@));
    r
}

/// A file name has a patch stem exactly when it is a non-empty stem
/// followed by `.toml`.
pub proof fn toml_stem_inverts_extension(file_name: Seq<char>, stem: Seq<char>)
    ensures
        toml_stem(file_name) == Some(stem) <==> (stem.len() > 0 && file_name == stem + seq!['.', 't', 'o', 'm', 'l']),
{
    let n = file_name.len() as int;
    if stem.len() > 0 && file_name == stem + seq!['.', 't', 'o', 'm', 'l'] {
        assert(file_name.subrange(n - 5, n) =~= toml_suffix());
        assert(file_name.subrange(0, n - 5) =~= stem);
    }
    if toml_stem(file_name) == Some(stem) {
        assert(file_name =~= stem + seq!['.', 't', 'o', 'm', 'l']);
    }
}

/// The stem of a file in `file_names` is among the stems of the `.toml`
/// files.
proof fn lemma_stem_listed(file_names: Seq<Seq<char>>, i: int, stem: Seq<char>)
    requires
        0 <= i < file_names.len(),
        toml_stem(file_names[i]) == Some(stem),
    ensures
        toml_stems(file_names).contains(stem),
    decreases file_names.len(),
{
    let rest = file_names.drop_last();
    if i == file_names.len() - 1 {
        assert(toml_stems(file_names) == toml_stems(rest).push(stem));
        assert(toml_stems(file_names)[toml_stems(rest).len() as int] == stem);
    } else {
        assert(rest[i] == file_names[i]);
        lemma_stem_listed(rest, i, stem);
        let k = choose|k: int| 0 <= k < toml_stems(rest).len() && toml_stems(rest)[k] == stem;
        match toml_stem(file_names.last()) {
            Some(other) => {
                assert(toml_stems(file_names) == toml_stems(rest).push(other));
                assert(toml_stems(file_names)[k] == stem);
            },
            None => {},
        }
    }
}

/// A saved patch is listed: whenever the files of a directory include the
/// file under which a patch called `name` is stored, the patch names found
/// there include the sanitized name, provided that it is not empty (a name
/// that sanitizes to nothing is stored as `.toml`, which has no extension).
pub proof fn saved_patch_is_listed(file_names: Seq<Seq<char>>, name: Seq<char>)
    requires
        file_names.contains(spec_patch_file_name(name)),
        spec_sanitize(name).len() > 0,
    ensures
        toml_stems(file_names).to_multiset().count(spec_sanitize(name)) > 0,
{
    broadcast use vstd::seq_lib::group_to_multiset_ensures;
    let stem = spec_sanitize(name);
    let file = spec_patch_file_name(name);
    let i = choose|i: int| 0 <= i < file_names.len() && file_names[i] == file;
    let n = file.len() as int;
    assert(file.subrange(n - 5, n) =~= toml_suffix());
    assert(file.subrange(0, n - 5) =~= stem);
    lemma_stem_listed(file_names, i, stem);
}

/// An error from saving, loading or deleting a patch, with the underlying
/// message.
#[derive(Debug, Clone)]
pub enum PatchError {
    Io(String),
    Serialize(String),
    Deserialize(String),
}

/// The message that describes a patch error.
pub open spec fn spec_patch_error_message(e: PatchError) -> Seq<char> {
    match e {
        PatchError::Io(m) => "IO error: "@ + m@,
        PatchError::Serialize(m) => "Serialize error: "@ + m@,
        PatchError::Deserialize(m) => "Deserialize error: "@ + m@,
    }
}

/// A patch error's message starts with the name of its kind, a colon and a
/// space, and ends with the underlying message.
pub proof fn error_message_names_kind(m: String)
    ensures
        spec_patch_error_message(PatchError::Io(m)) == seq!['I', 'O', ' ', 'e', 'r', 'r', 'o', 'r', ':', ' '] + m@,
        spec_patch_error_message(PatchError::Serialize(m)) == seq![
            'S', 'e', 'r', 'i', 'a', 'l', 'i', 'z', 'e', ' ', 'e', 'r', 'r', 'o', 'r', ':', ' ',
        ] + m@,
        spec_patch_error_message(PatchError::Deserialize(m)) == seq![
            'D', 'e', 's', 'e', 'r', 'i', 'a', 'l', 'i', 'z', 'e', ' ', 'e', 'r', 'r', 'o', 'r', ':', ' ',
        ] + m@,
{
    reveal_strlit("IO error: ");
    reveal_strlit("Serialize error: ");
    reveal_strlit("Deserialize error: ");
    assert("IO error: "@ =~= seq!['I', 'O', ' ', 'e', 'r', 'r', 'o', 'r', ':', ' ']);
    assert("Serialize error: "@ =~= seq![
        'S', 'e', 'r', 'i', 'a', 'l', 'i', 'z', 'e', ' ', 'e', 'r', 'r', 'o', 'r', ':', ' ',
    ]);
    assert("Deserialize error: "@ =~= seq![
        'D', 'e', 's', 'e', 'r', 'i', 'a', 'l', 'i', 'z', 'e', ' ', 'e', 'r', 'r', 'o', 'r', ':', ' ',
    ]);
}

impl PatchError {
    /// The message that describes this error: its kind, a colon, and the
    /// underlying message.
    pub fn message(&self) -> (r: String)
        ensures
            r@ == spec_patch_error_message(*self),
    {
        match self {
            PatchError::Io(m) => {
                let mut r = String::from_str("IO error: ");
                r.append(m.as_str());
                r
            },
            PatchError::Serialize(m) => {
                let mut r = String::from_str("Serialize error: ");
                r.append(m.as_str());
                r
            },
            PatchError::Deserialize(m) => {
                let mut r = String::from_str("Deserialize error: ");
                r.append(m.as_str());
                r
            },
        }
    }
}

} // verus!
