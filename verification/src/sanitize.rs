use vstd::prelude::*;

use crate::clock::{format_compact_timestamp, lemma_compact_timestamp_sep_free, now_utc,
    spec_compact_timestamp, spec_time_fields_in_range, Timestamp};
use crate::path_guard::{lemma_safe_component_is_valid, spec_path_is_valid, spec_safe_component};
use crate::strutil::{ascii_lowercase, spec_ascii_lower, spec_lower_char};

verus! {

/// The slug that slug::slugify computes for the given characters.
pub uninterp spec fn slug_of(s: Seq<char>) -> Seq<char>;

/// A character that may appear in a slug.
pub open spec fn is_slug_char(c: char) -> bool {
    ('a' <= c && c <= 'z') || ('0' <= c && c <= '9') || c == '-'
}

/// Relies on slug::slugify: the result depends on the characters alone, and
/// its documentation promises text of `a-z`, `0-9` and `-` that never holds
/// two dashes in a row and never starts or ends with a dash.
#[verifier::external_body]
fn slug_exec(s: &str) -> (r: String)
    ensures
        r@ == slug_of(s@),
        forall|i: int| 0 <= i < r@.len() ==> is_slug_char(#[trigger] r@[i]),
        r@.len() > 0 ==> r@[0] != '-' && r@[r@.len() - 1] != '-',
        forall|i: int| 0 <= i < r@.len() - 1 ==> !(#[trigger] r@[i] == '-' && r@[i + 1] == '-'),
{
    slug::slugify(s)
}

/// The position of the last occurrence of `c` in `s`, if any.
pub open spec fn last_index_of(s: Seq<char>, c: char) -> Option<int>
    decreases s.len(),
{
    if s.len() == 0 {
        None
    } else if s[s.len() - 1] == c {
        Some(s.len() - 1)
    } else {
        last_index_of(s.drop_last(), c)
    }
}

/// The file-name part of `s`: everything after the last separator.
pub open spec fn spec_file_part(s: Seq<char>) -> Seq<char> {
    match last_index_of(s, '/') {
        Some(k) => s.subrange(k + 1, s.len() as int),
        None => s,
    }
}

/// The stem of a file name: everything before the last dot, provided that
/// dot is not the leading character (a name such as `.config` has no
/// extension and is its own stem).
pub open spec fn spec_stem(f: Seq<char>) -> Seq<char> {
    match last_index_of(f, '.') {
        Some(d) => if d >= 1 {
            f.subrange(0, d)
        } else {
            f
        },
        None => f,
    }
}

/// The extension of a file name: everything after the last dot, provided
/// that dot is not the leading character.
pub open spec fn spec_ext(f: Seq<char>) -> Option<Seq<char>> {
    match last_index_of(f, '.') {
        Some(d) => if d >= 1 {
            Some(f.subrange(d + 1, f.len() as int))
        } else {
            None
        },
        None => None,
    }
}

/// The text the stem slug is computed from: the stem of the file-name part,
/// or the placeholder when that part is empty.
pub open spec fn spec_stem_source(s: Seq<char>) -> Seq<char> {
    let f = spec_file_part(s);
    if f.len() == 0 {
        "file"@
    } else {
        spec_stem(f)
    }
}

/// The sanitized stored name: the slug of the stem, then the lower-cased
/// extension, with a placeholder extension when the name has none and a bare
/// slug when the extension is empty.
pub open spec fn spec_sanitized(s: Seq<char>) -> Seq<char> {
    let f = spec_file_part(s);
    let slugged = slug_of(spec_stem_source(s));
    match spec_ext(f) {
        None => slugged + ".file"@,
        Some(e) => {
            let le = spec_ascii_lower(e);
            if le.len() == 0 {
                slugged
            } else {
                slugged + "."@ + le
            }
        },
    }
}

proof fn lemma_last_index_after(s: Seq<char>, c: char)
    ensures
        match last_index_of(s, c) {
            Some(k) => forall|j: int| k < j < s.len() ==> s[j] != c,
            None => forall|j: int| 0 <= j < s.len() ==> s[j] != c,
        },
    decreases s.len(),
{
    if s.len() > 0 && s[s.len() - 1] != c {
        let t = s.drop_last();
        lemma_last_index_after(t, c);
        lemma_last_index_bounds(t, c);
        match last_index_of(t, c) {
            Some(k) => {
                assert forall|j: int| k < j < s.len() implies s[j] != c by {
                    if j < s.len() - 1 {
                        assert(t[j] == s[j]);
                    }
                }
            },
            None => {
                assert forall|j: int| 0 <= j < s.len() implies s[j] != c by {
                    if j < s.len() - 1 {
                        assert(t[j] == s[j]);
                    }
                }
            },
        }
    }
}

proof fn lemma_last_index_bounds(s: Seq<char>, c: char)
    ensures
        match last_index_of(s, c) {
            Some(k) => 0 <= k < s.len() && s[k] == c,
            None => true,
        },
    decreases s.len(),
{
    if s.len() > 0 && s[s.len() - 1] != c {
        lemma_last_index_bounds(s.drop_last(), c);
    }
}

/// A separator-free prefix joined to separator-free text by an underscore
/// is itself safe as one path component: it can hold no separator, and the
/// underscore keeps it from being a dot name.
pub proof fn lemma_underscore_joined_safe(st: Seq<char>, san: Seq<char>, r: Seq<char>)
    requires
        forall|k: int| 0 <= k < st.len() ==> st[k] != '/',
        forall|k: int| 0 <= k < san.len() ==> san[k] != '/',
        r == st + "_"@ + san,
    ensures
        spec_safe_component(r),
{
    reveal_strlit("_");
    reveal_strlit(".");
    reveal_strlit("..");
    assert("_"@.len() == 1);
    assert("."@.len() == 1);
    assert(".."@.len() == 2);
    assert forall|k: int| 0 <= k < r.len() implies r[k] != '/' by {
        if k < st.len() {
            assert(r[k] == st[k]);
        } else if k == st.len() {
            assert(r[k] == '_');
        } else {
            assert(r[k] == san[k - st.len() - 1]);
        }
    }
    assert(r[st.len() as int] == '_');
    if r == "."@ || r == ".."@ {
        assert(r[st.len() as int] == '.');
    }
}

/// Find the last occurrence of `c` in `s`.
fn rfind_char(s: &str, c: char) -> (r: Option<usize>)
    ensures
        match r {
            Some(k) => last_index_of(s@, c) == Some(k as int),
            None => last_index_of(s@, c) is None,
        },
{
    let n = s.unicode_len();
    let mut i: usize = n;
    proof {
        assert(s@.take(n as int) =~= s@);
    }
    while i > 0
        invariant
            0 <= i <= n,
            n == s@.len(),
            last_index_of(s@, c) == last_index_of(s@.take(i as int), c),
        decreases i,
    {
        let prev = s.get_char(i - 1);
        proof {
            assert(s@.take(i as int).last() == s@[i - 1]);
            assert(s@.take(i as int).drop_last() =~= s@.take(i - 1));
        }
        if prev == c {
            return Some(i - 1);
        }
        i -= 1;
    }
    None
}

/// Convert an arbitrary user-supplied file name into a safe stored name:
/// any directory prefix is dropped, the stem is slugified, and the extension
/// is preserved lower-cased (a placeholder extension stands in when the name
/// has none). The result is always safe as a single path component, so a
/// stored name can never escape the storage namespace.
///
/// No extension allow-list is enforced here: content sniffing, not the name,
/// decides whether a payload is acceptable.
pub fn sanitize_filename(file_name: &str) -> (r: String)
    ensures
        r@ == spec_sanitized(file_name@),
        forall|i: int|
            0 <= i < slug_of(spec_stem_source(file_name@)).len() ==> is_slug_char(
                #[trigger] r@[i],
            ),
        spec_safe_component(r@),
        spec_path_is_valid(r@),
{
    let n = file_name.unicode_len();
    proof {
        lemma_last_index_bounds(file_name@, '/');
        lemma_last_index_after(file_name@, '/');
    }
    let f_start: usize = match rfind_char(file_name, '/') {
        Some(k) => k + 1,
        None => 0,
    };
    let f = file_name.substring_char(f_start, n);
    proof {
        assert(f@ == spec_file_part(file_name@));
        assert(forall|k: int| 0 <= k < f@.len() ==> f@[k] != '/');
        lemma_last_index_bounds(f@, '.');
        lemma_last_index_after(f@, '.');
    }
    let f_len = f.unicode_len();
    let dot = rfind_char(f, '.');
    let has_ext: bool = match dot {
        Some(d) => d >= 1,
        None => false,
    };
    let stem_source: &str = if f_len == 0 {
        "file"
    } else if has_ext {
        match dot {
            Some(d) => f.substring_char(0, d),
            None => f,
        }
    } else {
        f
    };
    let slugged = slug_exec(stem_source);
    let ghost sl = slugged@;
    proof {
        reveal_strlit(".");
        reveal_strlit("..");
        assert("."@.len() == 1);
        assert(".."@.len() == 2);
        assert(stem_source@ == spec_stem_source(file_name@));
        assert(forall|k: int|
            0 <= k < slugged@.len() ==> slugged@[k] != '/' && slugged@[k] != '.');
    }
    let r = if has_ext {
        let ext: &str = match dot {
            Some(d) => f.substring_char(d + 1, f_len),
            None => f,
        };
        let le = ascii_lowercase(ext);
        proof {
            assert(forall|k: int|
                0 <= k < le@.len() ==> le@[k] == spec_lower_char(#[trigger] ext@[k]));
            assert(forall|k: int| 0 <= k < le@.len() ==> le@[k] != '/' && le@[k] != '.');
        }
        if le.as_str().unicode_len() == 0 {
            proof {
                if slugged@ == "."@ || slugged@ == ".."@ {
                    assert(slugged@[0] == '.');
                }
                assert(spec_safe_component(slugged@));
            }
            slugged
        } else {
            let joined = slugged.concat(".").concat(le.as_str());
            proof {
                assert(joined@ == (sl + "."@) + le@);
                assert forall|k: int| 0 <= k < joined@.len() implies joined@[k] != '/' by {
                    if k < sl.len() {
                        assert(joined@[k] == sl[k]);
                    } else if k == sl.len() {
                        assert(joined@[k] == '.');
                    } else {
                        assert(joined@[k] == le@[k - sl.len() - 1]);
                    }
                }
                if joined@ == ".."@ {
                    assert(sl.len() == 0 && le@.len() == 1);
                    assert(joined@[1] == le@[0]);
                    assert(le@[0] == '.');
                }
                assert(joined@ != "."@);
                assert(spec_safe_component(joined@));
            }
            joined
        }
    } else {
        let joined = slugged.concat(".file");
        proof {
            reveal_strlit(".file");
            assert(".file"@.len() == 5);
            assert forall|k: int| 0 <= k < joined@.len() implies joined@[k] != '/' by {
                if k < sl.len() {
                    assert(joined@[k] == sl[k]);
                } else {
                    assert(joined@[k] == ".file"@[k - sl.len()]);
                }
            }
            assert(joined@ != "."@ && joined@ != ".."@);
            assert(spec_safe_component(joined@));
        }
        joined
    };
    proof {
        assert forall|i: int|
            0 <= i < slug_of(spec_stem_source(file_name@)).len() implies is_slug_char(
            r@[i],
        ) by {
            assert(r@[i] == sl[i]);
        }
        lemma_safe_component_is_valid(r@);
    }
    r
}

/// A sanitized name with a compact timestamp prefix, so that concurrent
/// uploads of identically-named files get distinct stored names. Like the
/// sanitized name itself, the result is safe as a single path component.
pub fn timestamped_filename(file_name: &str) -> (r: String)
    ensures
        exists|t: Timestamp|
            spec_time_fields_in_range(t) && r@ == spec_compact_timestamp(t) + "_"@
                + spec_sanitized(file_name@),
        spec_safe_component(r@),
        spec_path_is_valid(r@),
{
    let t = now_utc();
    let stamp = format_compact_timestamp(t);
    let ghost st = stamp@;
    let san = sanitize_filename(file_name);
    let r = stamp.concat("_").concat(san.as_str());
    proof {
        assert(spec_time_fields_in_range(t) && r@ == spec_compact_timestamp(t) + "_"@
            + spec_sanitized(file_name@));
        lemma_compact_timestamp_sep_free(t);
        lemma_underscore_joined_safe(st, san@, r@);
        lemma_safe_component_is_valid(r@);
    }
    r
}

} // verus!
