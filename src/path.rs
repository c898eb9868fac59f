use case::CaseExt;
use vstd::prelude::*;
use vstd::string::*;

use crate::text::{
    contains, contains_exec, join, occurs_at, replace_all, replace_exec, split, split_exec, split_from,
    views,
};

verus! {

/// The characters a host may use to separate path components.
pub open spec fn is_separator(c: char) -> bool {
    c == '/' || c == '\\'
}

/// `c` upper-cased if it is an ASCII lower-case letter.
pub open spec fn ascii_upper(c: char) -> char {
    if 'a' <= c && c <= 'z' {
        ((c as u32) - 32) as char
    } else {
        c
    }
}

/// Snake case to capitalised camel case: underscores are dropped and the
/// first character of each word is upper-cased (ASCII only).
pub open spec fn camel_from(s: Seq<char>, at_new_word: bool) -> Seq<char>
    decreases s.len(),
{
    if s.len() == 0 {
        Seq::empty()
    } else if s[0] == '_' {
        camel_from(s.subrange(1, s.len() as int), true)
    } else if at_new_word {
        seq![ascii_upper(s[0])] + camel_from(s.subrange(1, s.len() as int), false)
    } else {
        seq![s[0]] + camel_from(s.subrange(1, s.len() as int), false)
    }
}

pub open spec fn camel(s: Seq<char>) -> Seq<char> {
    camel_from(s, true)
}

proof fn lemma_camel_no_underscore(s: Seq<char>, at_new_word: bool)
    ensures
        forall|i: int|
            0 <= i < camel_from(s, at_new_word).len() ==> #[trigger] camel_from(s, at_new_word)[i]
                != '_',
    decreases s.len(),
{
    if s.len() > 0 {
        let tail = s.subrange(1, s.len() as int);
        lemma_camel_no_underscore(tail, true);
        lemma_camel_no_underscore(tail, false);
        if s[0] == '_' {
            assert(camel_from(s, at_new_word) == camel_from(tail, true));
        } else {
            let r = camel_from(s, at_new_word);
            let c = if at_new_word { ascii_upper(s[0]) } else { s[0] };
            assert(c != '_');
            assert forall|i: int| 0 <= i < r.len() implies r[i] != '_' by {
                if i > 0 {
                    assert(r[i] == camel_from(tail, false)[i - 1]);
                } else {
                    assert(r[0] == c);
                }
            }
        }
    }
}

proof fn lemma_camel_keeps_plain(t: Seq<char>)
    requires
        forall|i: int| 0 <= i < t.len() ==> t[i] != '_',
    ensures
        camel_from(t, false) == t,
    decreases t.len(),
{
    if t.len() > 0 {
        let tail = t.subrange(1, t.len() as int);
        lemma_camel_keeps_plain(tail);
        assert(seq![t[0]] + tail =~= t);
    }
}

/// Camel-casing a camel-cased word changes nothing.
pub proof fn camel_is_idempotent(s: Seq<char>)
    ensures
        camel(camel(s)) == camel(s),
    decreases s.len(),
{
    if s.len() > 0 {
        let tail = s.subrange(1, s.len() as int);
        if s[0] == '_' {
            camel_is_idempotent(tail);
        } else {
            let rest = camel_from(tail, false);
            let r = seq![ascii_upper(s[0])] + rest;
            assert(camel(s) == r);
            lemma_camel_no_underscore(tail, false);
            lemma_camel_keeps_plain(rest);
            assert(r[0] != '_');
            assert(r.subrange(1, r.len() as int) =~= rest);
            assert(ascii_upper(ascii_upper(s[0])) == ascii_upper(s[0]));
            assert(camel(r) =~= r);
        }
    }
}

/// `child` placed under `base`, with one separator between them. `child` is
/// always taken as relative: one that starts with a separator is still
/// appended, unlike `PathBuf::join`, which would replace `base` with it.
pub open spec fn join_path(base: Seq<char>, child: Seq<char>, sep: char) -> Seq<char> {
    if base.len() == 0 || base.last() == sep {
        base + child
    } else {
        base + seq![sep] + child
    }
}

/// A word of an architecture-marked segment: the marker itself is kept verbatim.
pub open spec fn fix_word(w: Seq<char>) -> Seq<char> {
    if contains(w, "86"@) {
        w
    } else {
        camel(w)
    }
}

proof fn lemma_split_without_separator(s: Seq<char>, c: char, cur: Seq<char>)
    requires
        forall|i: int| 0 <= i < s.len() ==> s[i] != c,
    ensures
        split_from(s, c, cur) == seq![cur + s],
    decreases s.len(),
{
    if s.len() > 0 {
        let tail = s.subrange(1, s.len() as int);
        lemma_split_without_separator(tail, c, cur.push(s[0]));
        assert(cur.push(s[0]) + tail =~= cur + s);
    } else {
        assert(cur + s =~= cur);
    }
}

/// On a host whose separator is `\`, correcting a native path that is
/// already correct (a drive, no `/`, no `_`, no lower-case first letter)
/// changes nothing but a trailing separator, which names the same place.
pub proof fn native_path_correction_is_stable(path: Seq<char>)
    requires
        contains(path, ":"@),
        forall|i: int| 0 <= i < path.len() ==> path[i] != '/' && path[i] != '_',
        path.len() > 0 ==> !('a' <= path[0] && path[0] <= 'z'),
    ensures
        fixed_executable_path(path, '\\') == path.push('\\'),
{
    lemma_split_without_separator(path, '/', Seq::empty());
    assert(Seq::<char>::empty() + path =~= path);
    let segs = split(path, '/');
    assert(segs == seq![path]);
    assert(segs.drop_last() =~= Seq::<Seq<char>>::empty());
    reveal_strlit(":");
    let w = choose|i: int| occurs_at(path, ":"@, i);
    assert(path.len() > 0);
    let tail = path.subrange(1, path.len() as int);
    lemma_camel_keeps_plain(tail);
    assert(seq![path[0]] + tail =~= path);
    assert(camel(path) == path);
    assert(fix_segment(path, '\\') == path.push('\\'));
    assert(segs.last() == path);
    assert(join_segments(segs.drop_last(), '\\') == Seq::<char>::empty());
    assert(Seq::<char>::empty() + path.push('\\') =~= path.push('\\'));
}

/// On a host whose separator is `\\`, correcting a native path that is
/// already correct and has no drive (no `:`, no `x86` marker, no `/`, no
/// `_`, no lower-case first letter) gives it back unchanged.
pub proof fn native_path_without_drive_is_unchanged(path: Seq<char>)
    requires
        !contains(path, ":"@),
        !contains(path, "x86"@),
        forall|i: int| 0 <= i < path.len() ==> path[i] != '/' && path[i] != '_',
        path.len() > 0 ==> !('a' <= path[0] && path[0] <= 'z'),
    ensures
        fixed_executable_path(path, '\\') == path,
{
    lemma_split_without_separator(path, '/', Seq::empty());
    assert(Seq::<char>::empty() + path =~= path);
    let segs = split(path, '/');
    assert(segs == seq![path]);
    assert(segs.drop_last() =~= Seq::<Seq<char>>::empty());
    assert(segs.last() == path);
    if path.len() > 0 {
        let tail = path.subrange(1, path.len() as int);
        lemma_camel_keeps_plain(tail);
        assert(seq![path[0]] + tail =~= path);
    } else {
        assert(camel(path) =~= path);
    }
    assert(camel(path) == path);
    assert(fix_segment(path, '\\') == path);
    assert(join_segments(segs.drop_last(), '\\') == Seq::<char>::empty());
    assert(Seq::<char>::empty() + path =~= path);
}

/// Correcting a word of an architecture-marked segment twice changes
/// nothing more than correcting it once.
pub proof fn word_correction_is_idempotent(w: Seq<char>)
    ensures
        fix_word(fix_word(w)) == fix_word(w),
{
    camel_is_idempotent(w);
}

/// One segment of a registry-stored executable path with its casing restored.
pub open spec fn fix_segment(seg: Seq<char>, sep: char) -> Seq<char> {
    if contains(seg, ":"@) {
        camel(seg).push(sep)
    } else if contains(seg, "x86"@) {
        join(split(seg, ' ').map_values(|w: Seq<char>| fix_word(w)), " "@)
    } else if !contains(seg, ".exe"@) {
        camel(seg)
    } else {
        seg
    }
}

/// The corrected segments joined one after another under the empty path.
pub open spec fn join_segments(segs: Seq<Seq<char>>, sep: char) -> Seq<char>
    decreases segs.len(),
{
    if segs.len() == 0 {
        Seq::empty()
    } else {
        join_path(join_segments(segs.drop_last(), sep), fix_segment(segs.last(), sep), sep)
    }
}

/// A `/`-separated executable path from the registry in the host's conventions.
pub open spec fn fixed_executable_path(raw: Seq<char>, sep: char) -> Seq<char> {
    join_segments(split(raw, '/'), sep)
}

/// An install path from a URL-query manifest with its escaped separators,
/// colons and spaces decoded, in this order.
pub open spec fn decoded_install_path(v: Seq<char>, sep: char) -> Seq<char> {
    let s = replace_all(v, "%5c"@, seq![sep]);
    let s = replace_all(s, "%5C"@, seq![sep]);
    let s = replace_all(s, "%2f"@, seq![sep]);
    let s = replace_all(s, "%2F"@, seq![sep]);
    let s = replace_all(s, "%3a"@, ":"@);
    let s = replace_all(s, "%3A"@, ":"@);
    replace_all(s, "%20"@, " "@)
}

/// Relies on std::path::MAIN_SEPARATOR: the host's path separator, `/` or `\`.
#[verifier::external_body]
pub(crate) fn main_separator() -> (r: char)
    ensures
        is_separator(r),
{
    std::path::MAIN_SEPARATOR
}

/// Relies on case::CaseExt::to_camel, which drops underscores and upper-cases
/// (ASCII) the first character and each one that follows an underscore.
#[verifier::external_body]
fn to_camel(s: &str) -> (r: String)
    ensures
        r@ == camel(s@),
{
    s.to_camel()
}

pub(crate) fn separator_str(sep: char) -> (r: &'static str)
    requires
        is_separator(sep),
    ensures
        r@ == seq![sep],
{
    proof {
        reveal_strlit("/");
        reveal_strlit("\\");
    }
    if sep == '/' {
        "/"
    } else {
        "\\"
    }
}

/// Places `child` under `base`; `child` is taken as relative.
pub fn join_path_exec(base: &str, child: &str, sep: char) -> (r: String)
    requires
        is_separator(sep),
    ensures
        r@ == join_path(base@, child@, sep),
{
    let n = base.unicode_len();
    let mut out = String::from_str(base);
    if n > 0 && base.get_char(n - 1) != sep {
        out.append(separator_str(sep));
    }
    out.append(child);
    out
}

fn fix_word_exec(w: &str) -> (r: String)
    ensures
        r@ == fix_word(w@),
{
    if contains_exec(w, "86") {
        String::from_str(w)
    } else {
        to_camel(w)
    }
}

fn fix_segment_exec(seg: &str, sep: char) -> (r: String)
    requires
        is_separator(sep),
    ensures
        r@ == fix_segment(seg@, sep),
{
    if contains_exec(seg, ":") {
        let mut w = to_camel(seg);
        w.append(separator_str(sep));
        assert(w@ =~= camel(seg@).push(sep));
        w
    } else if contains_exec(seg, "x86") {
        let words = split_exec(seg, ' ');
        let ghost fixed = split(seg@, ' ').map_values(|w: Seq<char>| fix_word(w));
        let mut out = String::new();
        let mut j: usize = 0;
        while j < words.len()
            invariant
                views(words@) == split(seg@, ' '),
                fixed == split(seg@, ' ').map_values(|w: Seq<char>| fix_word(w)),
                j <= words@.len(),
                out@ == join(fixed.subrange(0, j as int), " "@),
            decreases words@.len() - j,
        {
            assert(views(words@)[j as int] == words@[j as int]@);
            let w = fix_word_exec(words[j].as_str());
            assert(fixed.subrange(0, j + 1).drop_last() =~= fixed.subrange(0, j as int));
            if j == 0 {
                out = w;
            } else {
                out.append(" ");
                out.append(w.as_str());
            }
            j = j + 1;
            assert(out@ =~= join(fixed.subrange(0, j as int), " "@));
        }
        assert(fixed.subrange(0, j as int) =~= fixed);
        out
    } else if !contains_exec(seg, ".exe") {
        to_camel(seg)
    } else {
        String::from_str(seg)
    }
}

/// Restores the casing of a `/`-separated executable path read from the
/// registry and joins its segments with `separator`.
pub fn fix_launcher_executable_path(path: &str, separator: char) -> (r: String)
    requires
        is_separator(separator),
    ensures
        r@ == fixed_executable_path(path@, separator),
{
    let segs = split_exec(path, '/');
    let mut out = String::new();
    let mut i: usize = 0;
    while i < segs.len()
        invariant
            is_separator(separator),
            views(segs@) == split(path@, '/'),
            i <= segs@.len(),
            out@ == join_segments(views(segs@).subrange(0, i as int), separator),
        decreases segs@.len() - i,
    {
        assert(views(segs@)[i as int] == segs@[i as int]@);
        let seg = fix_segment_exec(segs[i].as_str(), separator);
        out = join_path_exec(out.as_str(), seg.as_str(), separator);
        assert(views(segs@).subrange(0, i + 1).drop_last() =~= views(segs@).subrange(0, i as int));
        i = i + 1;
    }
    assert(views(segs@).subrange(0, i as int) =~= views(segs@));
    out
}

/// Decodes the escaped separators, colons and spaces of an install path
/// stored in a URL-query manifest.
pub fn make_dip_install_path(value: &str, separator: char) -> (r: String)
    requires
        is_separator(separator),
    ensures
        r@ == decoded_install_path(value@, separator),
{
    proof {
        reveal_strlit("%5c");
        reveal_strlit("%5C");
        reveal_strlit("%2f");
        reveal_strlit("%2F");
        reveal_strlit("%3a");
        reveal_strlit("%3A");
        reveal_strlit("%20");
    }
    let sep = separator_str(separator);
    let s = replace_exec(value, "%5c", sep);
    let s = replace_exec(s.as_str(), "%5C", sep);
    let s = replace_exec(s.as_str(), "%2f", sep);
    let s = replace_exec(s.as_str(), "%2F", sep);
    let s = replace_exec(s.as_str(), "%3a", ":");
    let s = replace_exec(s.as_str(), "%3A", ":");
    replace_exec(s.as_str(), "%20", " ")
}

} // verus!
