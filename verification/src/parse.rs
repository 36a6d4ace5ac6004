//! The manifest parser.
//!
//! A manifest is a JSON object with string fields `name` and `version`, an
//! optional `keyword` (a string or `null`), an optional `luncher` (the
//! launcher variant name), and a required `res` object with string fields
//! `file` and `html`.  Fields may come in any order; a duplicate or unknown
//! field, a string escape, or trailing text makes the document malformed.
//!
//! `spec_parse_manifest` is the grammar, written as a functional parser over
//! the document's characters; [`parse_manifest`] returns exactly what it
//! denotes, and a malformed document is reported as a parse error without
//! aborting anything beyond this one manifest.

use vstd::prelude::*;

use crate::errors::PluginError;
use crate::manifest::Launcher;
use crate::manifest::PluginInfo;
use crate::manifest::PluginInfoV;
use crate::manifest::PluginRes;
use crate::manifest::PluginResV;

verus! {

/// JSON whitespace.
pub open spec fn is_ws(c: char) -> bool {
    c == ' ' || c == '\t' || c == '\n' || c == '\r'
}

/// The first position at or after `i` holding no whitespace.
pub open spec fn skip_ws(s: Seq<char>, i: int) -> int
    decreases s.len() - i,
{
    if 0 <= i < s.len() && is_ws(s[i]) {
        skip_ws(s, i + 1)
    } else {
        i
    }
}

/// The position of the closing quote of a string body starting at `i`, if
/// the body runs to one without an escape.
pub open spec fn scan_string(s: Seq<char>, i: int) -> Option<int>
    decreases s.len() - i,
{
    if i < 0 || i >= s.len() {
        None
    } else if s[i] == '"' {
        Some(i)
    } else if s[i] == '\\' {
        None
    } else {
        scan_string(s, i + 1)
    }
}

/// A JSON string at `i`: its contents and the position after the closing
/// quote.  Escapes are not supported: a backslash makes the document
/// malformed.
pub open spec fn parse_string(s: Seq<char>, i: int) -> Option<(Seq<char>, int)> {
    if 0 <= i < s.len() && s[i] == '"' {
        match scan_string(s, i + 1) {
            Some(j) => Some((s.subrange(i + 1, j), j + 1)),
            None => None,
        }
    } else {
        None
    }
}

/// The literal `lit` read at `i`: the position after it.
pub open spec fn expect_lit(s: Seq<char>, i: int, lit: Seq<char>) -> Option<int> {
    if 0 <= i && i + lit.len() <= s.len() && s.subrange(i, i + lit.len()) == lit {
        Some(i + lit.len())
    } else {
        None
    }
}

/// The fields gathered while reading the manifest object, each at most
/// once.
pub struct FieldsV {
    pub name: Option<Seq<char>>,
    pub version: Option<Seq<char>>,
    pub keyword: Option<Option<Seq<char>>>,
    pub luncher: Option<Launcher>,
    pub res: Option<PluginResV>,
}

/// No field seen yet.
pub open spec fn empty_fields() -> FieldsV {
    FieldsV { name: None, version: None, keyword: None, luncher: None, res: None }
}

/// A `keyword` value: a string, or `null` for none.
pub open spec fn parse_keyword_val(s: Seq<char>, i: int) -> Option<(Option<Seq<char>>, int)> {
    match parse_string(s, i) {
        Some((v, j)) => Some((Some(v), j)),
        None => match expect_lit(s, i, "null"@) {
            Some(j) => Some((None, j)),
            None => None,
        },
    }
}

/// A `luncher` value: one of the launcher variant names.
pub open spec fn parse_luncher_val(s: Seq<char>, i: int) -> Option<(Launcher, int)> {
    match parse_string(s, i) {
        Some((v, j)) => if v == "Content"@ {
            Some((Launcher::Content, j))
        } else if v == "NewWindow"@ {
            Some((Launcher::NewWindow, j))
        } else {
            None
        },
        None => None,
    }
}

/// The fields gathered while reading the `res` object.
pub struct ResFieldsV {
    pub file: Option<Seq<char>>,
    pub html: Option<Seq<char>>,
}

/// One `key: value` pair of the `res` object, folded into `acc`; a
/// duplicate or unknown key makes the document malformed.
pub open spec fn parse_res_pair(s: Seq<char>, i: int, acc: ResFieldsV) -> Option<
    (ResFieldsV, int),
> {
    match parse_string(s, i) {
        Some((key, j)) => {
            let k = skip_ws(s, j);
            if k < s.len() && s[k] == ':' {
                let v = skip_ws(s, k + 1);
                if key == "file"@ {
                    if acc.file is Some {
                        None
                    } else {
                        match parse_string(s, v) {
                            Some((val, e)) => Some((ResFieldsV { file: Some(val), ..acc }, e)),
                            None => None,
                        }
                    }
                } else if key == "html"@ {
                    if acc.html is Some {
                        None
                    } else {
                        match parse_string(s, v) {
                            Some((val, e)) => Some((ResFieldsV { html: Some(val), ..acc }, e)),
                            None => None,
                        }
                    }
                } else {
                    None
                }
            } else {
                None
            }
        },
        None => None,
    }
}

/// The `res` object's pairs from position `i` to the closing brace.
pub open spec fn parse_res_fields(s: Seq<char>, i: int, acc: ResFieldsV) -> Option<
    (ResFieldsV, int),
>
    decreases s.len() - i,
{
    match parse_res_pair(s, i, acc) {
        Some((acc2, j)) => {
            let k = skip_ws(s, j);
            if k < s.len() && s[k] == ',' {
                let m = skip_ws(s, k + 1);
                if i < m && m <= s.len() {
                    parse_res_fields(s, m, acc2)
                } else {
                    None
                }
            } else if k < s.len() && s[k] == '}' {
                Some((acc2, k + 1))
            } else {
                None
            }
        },
        None => None,
    }
}

/// The `res` object at `i`: both of its required string fields, in either
/// order, and the position after its closing brace.
pub open spec fn parse_res_obj(s: Seq<char>, i: int) -> Option<(PluginResV, int)> {
    if 0 <= i < s.len() && s[i] == '{' {
        let j = skip_ws(s, i + 1);
        match parse_res_fields(s, j, ResFieldsV { file: None, html: None }) {
            Some((acc, e)) => match (acc.file, acc.html) {
                (Some(f), Some(h)) => Some((PluginResV { file: f, html: h }, e)),
                _ => None,
            },
            None => None,
        }
    } else {
        None
    }
}

/// One `key: value` pair of the manifest object, folded into `acc`; a
/// duplicate or unknown key makes the document malformed.
pub open spec fn parse_pair(s: Seq<char>, i: int, acc: FieldsV) -> Option<(FieldsV, int)> {
    match parse_string(s, i) {
        Some((key, j)) => {
            let k = skip_ws(s, j);
            if k < s.len() && s[k] == ':' {
                let v = skip_ws(s, k + 1);
                if key == "name"@ {
                    if acc.name is Some {
                        None
                    } else {
                        match parse_string(s, v) {
                            Some((val, e)) => Some((FieldsV { name: Some(val), ..acc }, e)),
                            None => None,
                        }
                    }
                } else if key == "version"@ {
                    if acc.version is Some {
                        None
                    } else {
                        match parse_string(s, v) {
                            Some((val, e)) => Some((FieldsV { version: Some(val), ..acc }, e)),
                            None => None,
                        }
                    }
                } else if key == "keyword"@ {
                    if acc.keyword is Some {
                        None
                    } else {
                        match parse_keyword_val(s, v) {
                            Some((val, e)) => Some((FieldsV { keyword: Some(val), ..acc }, e)),
                            None => None,
                        }
                    }
                } else if key == "luncher"@ {
                    if acc.luncher is Some {
                        None
                    } else {
                        match parse_luncher_val(s, v) {
                            Some((val, e)) => Some((FieldsV { luncher: Some(val), ..acc }, e)),
                            None => None,
                        }
                    }
                } else if key == "res"@ {
                    if acc.res is Some {
                        None
                    } else {
                        match parse_res_obj(s, v) {
                            Some((val, e)) => Some((FieldsV { res: Some(val), ..acc }, e)),
                            None => None,
                        }
                    }
                } else {
                    None
                }
            } else {
                None
            }
        },
        None => None,
    }
}

/// The manifest object's pairs from position `i` to the closing brace.
pub open spec fn parse_fields(s: Seq<char>, i: int, acc: FieldsV) -> Option<(FieldsV, int)>
    decreases s.len() - i,
{
    match parse_pair(s, i, acc) {
        Some((acc2, j)) => {
            let k = skip_ws(s, j);
            if k < s.len() && s[k] == ',' {
                let m = skip_ws(s, k + 1);
                if i < m && m <= s.len() {
                    parse_fields(s, m, acc2)
                } else {
                    None
                }
            } else if k < s.len() && s[k] == '}' {
                Some((acc2, k + 1))
            } else {
                None
            }
        },
        None => None,
    }
}

/// The manifest a completed object denotes: `name`, `version` and `res` are
/// required, a missing `keyword` means none, a missing `luncher` means the
/// default launcher.
pub open spec fn finalize(acc: FieldsV) -> Option<PluginInfoV> {
    match (acc.name, acc.version, acc.res) {
        (Some(n), Some(v), Some(r)) => Some(
            PluginInfoV {
                name: n,
                version: v,
                keyword: match acc.keyword {
                    Some(k) => k,
                    None => None,
                },
                luncher: match acc.luncher {
                    Some(l) => l,
                    None => Launcher::NewWindow,
                },
                res: r,
            },
        ),
        _ => None,
    }
}

/// The manifest denoted by a whole document: one object, nothing but
/// whitespace around it.
pub open spec fn spec_parse_manifest(s: Seq<char>) -> Option<PluginInfoV> {
    let i = skip_ws(s, 0);
    if 0 <= i < s.len() && s[i] == '{' {
        let j = skip_ws(s, i + 1);
        match parse_fields(s, j, empty_fields()) {
            Some((acc, e)) => {
                let t = skip_ws(s, e);
                if t == s.len() {
                    finalize(acc)
                } else {
                    None
                }
            },
            None => None,
        }
    } else {
        None
    }
}

/// Skips whitespace starting at `i`.
fn skip_ws_from(s: &str, i: usize) -> (r: usize)
    requires
        i <= s@.len(),
    ensures
        r == skip_ws(s@, i as int),
        i <= r <= s@.len(),
{
    let n = s.unicode_len();
    let mut k = i;
    while k < n
        invariant
            n == s@.len(),
            i <= k <= n,
            skip_ws(s@, i as int) == skip_ws(s@, k as int),
        decreases n - k,
    {
        let c = s.get_char(k);
        if !(c == ' ' || c == '\t' || c == '\n' || c == '\r') {
            proof {
                assert(!is_ws(s@[k as int]));
                assert(skip_ws(s@, k as int) == k);
            }
            return k;
        }
        k = k + 1;
    }
    proof {
        assert(skip_ws(s@, k as int) == k);
    }
    k
}

/// Parses a JSON string at `i`, returning its contents and the position
/// after the closing quote.
fn parse_string_at(s: &str, i: usize) -> (r: Option<(String, usize)>)
    requires
        i <= s@.len(),
    ensures
        match r {
            Some(p) => parse_string(s@, i as int) == Some((p.0@, p.1 as int)) && i + 2 <= p.1
                <= s@.len(),
            None => parse_string(s@, i as int) is None,
        },
{
    let n = s.unicode_len();
    if i >= n || s.get_char(i) != '"' {
        return None;
    }
    let mut k = i + 1;
    while k < n
        invariant
            n == s@.len(),
            i + 1 <= k <= n,
            s@[i as int] == '"',
            scan_string(s@, i + 1) == scan_string(s@, k as int),
        decreases n - k,
    {
        let c = s.get_char(k);
        if c == '"' {
            let body = s.substring_char(i + 1, k);
            proof {
                assert(scan_string(s@, k as int) == Some(k as int));
                assert(parse_string(s@, i as int) == Some(
                    (s@.subrange(i + 1, k as int), k as int + 1),
                ));
                assert(body@ == s@.subrange(i + 1, k as int));
            }
            return Some((body.to_owned(), k + 1));
        }
        if c == '\\' {
            return None;
        }
        k = k + 1;
    }
    None
}

/// Reads the literal `lit` at `i`.
fn expect_lit_at(s: &str, i: usize, lit: &str) -> (r: Option<usize>)
    requires
        i <= s@.len(),
    ensures
        match r {
            Some(j) => expect_lit(s@, i as int, lit@) == Some(j as int) && i <= j <= s@.len(),
            None => expect_lit(s@, i as int, lit@) is None,
        },
{
    let n = s.unicode_len();
    let m = lit.unicode_len();
    if m > n - i {
        return None;
    }
    let mut k: usize = 0;
    while k < m
        invariant
            n == s@.len(),
            m == lit@.len(),
            i + m <= n,
            k <= m,
            forall|j: int| 0 <= j < k ==> s@[i + j] == lit@[j],
        decreases m - k,
    {
        if s.get_char(i + k) != lit.get_char(k) {
            proof {
                let win = s@.subrange(i as int, i + lit@.len());
                assert(win[k as int] == s@[i + k]);
            }
            return None;
        }
        k = k + 1;
    }
    proof {
        assert(s@.subrange(i as int, i + lit@.len()) =~= lit@);
    }
    Some(i + m)
}

/// Free of quotes and backslashes: such a text can stand in a JSON string
/// without escapes.
pub open spec fn json_clean(s: Seq<char>) -> bool {
    forall|i: int| 0 <= i < s.len() ==> s[i] != '"' && s[i] != '\\'
}

/// `s` wrapped in quotes.
pub open spec fn quoted(s: Seq<char>) -> Seq<char> {
    seq!['"'] + s + seq!['"']
}

/// A `key: value` pair, written canonically.
pub open spec fn pair_doc(key: Seq<char>, val: Seq<char>) -> Seq<char> {
    quoted(key) + seq![':'] + val
}

/// The `keyword` field's canonical value: the quoted keyword, or `null`.
pub open spec fn keyword_doc(k: Option<Seq<char>>) -> Seq<char> {
    match k {
        Some(x) => quoted(x),
        None => "null"@,
    }
}

/// The `luncher` field's canonical value, before quoting.
pub open spec fn luncher_doc(l: Launcher) -> Seq<char> {
    match l {
        Launcher::Content => "Content"@,
        Launcher::NewWindow => "NewWindow"@,
    }
}

/// The canonical document of a manifest: every field written out, in the
/// standard order, without whitespace.
pub open spec fn manifest_doc(m: PluginInfoV) -> Seq<char> {
    seq!['{'] + pair_doc("name"@, quoted(m.name)) + seq![','] + pair_doc(
        "version"@,
        quoted(m.version),
    ) + seq![','] + pair_doc("keyword"@, keyword_doc(m.keyword)) + seq![','] + pair_doc(
        "luncher"@,
        quoted(luncher_doc(m.luncher)),
    ) + seq![','] + pair_doc("res"@, res_doc(m.res)) + seq!['}']
}

/// The canonical document of a `res` object.
pub open spec fn res_doc(r: PluginResV) -> Seq<char> {
    seq!['{'] + pair_doc("file"@, quoted(r.file)) + seq![','] + pair_doc(
        "html"@,
        quoted(r.html),
    ) + seq!['}']
}

/// Scanning a clean string body runs to the closing quote.
#[verifier::rlimit(100)]
proof fn lemma_scan_clean(s: Seq<char>, i: int, body: Seq<char>)
    requires
        0 <= i,
        i + body.len() < s.len(),
        s.subrange(i, i + body.len()) == body,
        json_clean(body),
        s[i + body.len()] == '"',
    ensures
        scan_string(s, i) == Some(i + body.len()),
    decreases body.len(),
{
    if body.len() == 0 {
        assert(s[i] == '"');
    } else {
        assert(s[i] == body[0]) by {
            assert(s.subrange(i, i + body.len())[0] == s[i]);
        }
        assert(body[0] != '"' && body[0] != '\\');
        assert(s.subrange(i + 1, i + 1 + body.drop_first().len()) =~= body.drop_first()) by {
            assert forall|j: int| 0 <= j < body.len() - 1 implies #[trigger] s[i + 1 + j]
                == body[j + 1] by {
                assert(s.subrange(i, i + body.len())[j + 1] == s[i + j + 1]);
            }
        }
        assert(json_clean(body.drop_first()));
        lemma_scan_clean(s, i + 1, body.drop_first());
    }
}

/// A quoted clean body at `i` parses as a string and ends after its
/// closing quote.
#[verifier::rlimit(100)]
proof fn lemma_parse_quoted(s: Seq<char>, i: int, body: Seq<char>)
    requires
        0 <= i,
        i + body.len() + 2 <= s.len(),
        s[i] == '"',
        s.subrange(i + 1, i + 1 + body.len()) == body,
        json_clean(body),
        s[i + 1 + body.len()] == '"',
    ensures
        parse_string(s, i) == Some((body, i + body.len() + 2)),
{
    lemma_scan_clean(s, i + 1, body);
    assert(s.subrange(i + 1, i + 1 + body.len()) == body);
}

/// A canonical string-valued pair at `p` drives one pair step: the key
/// parses, the colon follows with no whitespace around it, and the value
/// parses, ending after its closing quote.
#[verifier::rlimit(100)]
proof fn lemma_pair_step(s: Seq<char>, p: int, key: Seq<char>, val: Seq<char>)
    requires
        0 <= p,
        json_clean(key),
        json_clean(val),
        p + key.len() + val.len() + 5 <= s.len(),
        s.subrange(p, p + key.len() + val.len() + 5) == pair_doc(key, quoted(val)),
    ensures
        parse_string(s, p) == Some((key, p + key.len() + 2)),
        skip_ws(s, p + key.len() + 2) == p + key.len() + 2,
        s[p + key.len() + 2] == ':',
        skip_ws(s, p + key.len() + 3) == p + key.len() + 3,
        parse_string(s, p + key.len() + 3) == Some((val, p + key.len() + val.len() + 5)),
{
    let d = pair_doc(key, quoted(val));
    let klen = key.len() as int;
    let vlen = val.len() as int;
    let w = klen + vlen + 5;
    assert forall|j: int| p <= j < p + w implies #[trigger] s[j] == d[j - p] by {
        assert(s.subrange(p, p + w)[j - p] == s[j]);
    }
    assert(s[p] == d[0]);
    assert(d[0] == '"');
    assert(s.subrange(p + 1, p + 1 + klen) =~= key) by {
        assert forall|j: int| 0 <= j < klen implies s.subrange(p + 1, p + 1 + klen)[j]
            == key[j] by {
            assert(s.subrange(p + 1, p + 1 + klen)[j] == s[p + 1 + j]);
            assert(s[p + 1 + j] == d[1 + j]);
            assert(d[1 + j] == key[j]);
        }
    }
    assert(s[p + 1 + klen] == d[1 + klen]);
    assert(d[1 + klen] == '"');
    lemma_parse_quoted(s, p, key);
    assert(s[p + klen + 2] == d[klen + 2]);
    assert(d[klen + 2] == ':');
    assert(!is_ws(':'));
    assert(skip_ws(s, p + klen + 2) == p + klen + 2);
    let v = p + klen + 3;
    assert(s[v] == d[klen + 3]);
    assert(d[klen + 3] == '"');
    assert(!is_ws('"'));
    assert(skip_ws(s, v) == v);
    assert(s.subrange(v + 1, v + 1 + vlen) =~= val) by {
        assert forall|j: int| 0 <= j < vlen implies s.subrange(v + 1, v + 1 + vlen)[j]
            == val[j] by {
            assert(s.subrange(v + 1, v + 1 + vlen)[j] == s[v + 1 + j]);
            assert(s[v + 1 + j] == d[klen + 4 + j]);
            assert(d[klen + 4 + j] == val[j]);
        }
    }
    assert(s[v + 1 + vlen] == d[klen + vlen + 4]);
    assert(d[klen + vlen + 4] == '"');
    lemma_parse_quoted(s, v, val);
}

/// A canonical `res` document at `v` parses as the `res` object it was
/// written from.
#[verifier::rlimit(100)]
proof fn lemma_res_obj(s: Seq<char>, v: int, r: PluginResV)
    requires
        0 <= v,
        json_clean(r.file),
        json_clean(r.html),
        v + r.file.len() + r.html.len() + 21 <= s.len(),
        s.subrange(v, v + r.file.len() + r.html.len() + 21) == res_doc(r),
    ensures
        parse_res_obj(s, v) == Some((r, v + r.file.len() + r.html.len() + 21)),
{
    reveal_strlit("file");
    reveal_strlit("html");
    let d = res_doc(r);
    let f = r.file.len() as int;
    let h = r.html.len() as int;
    let w = f + h + 21;
    assert forall|j: int| v <= j < v + w implies #[trigger] s[j] == d[j - v] by {
        assert(s.subrange(v, v + w)[j - v] == s[j]);
    }
    assert(s[v] == d[0]);
    assert(d[0] == '{');
    let pf = v + 1;
    assert(s[pf] == d[1]);
    assert(d[1] == '"');
    assert(!is_ws('"'));
    assert(skip_ws(s, pf) == pf);
    // The `file` pair.
    assert(s.subrange(pf, pf + f + 9) =~= pair_doc("file"@, quoted(r.file))) by {
        assert forall|j: int| 0 <= j < f + 9 implies s.subrange(pf, pf + f + 9)[j] == pair_doc(
            "file"@,
            quoted(r.file),
        )[j] by {
            assert(s.subrange(pf, pf + f + 9)[j] == s[pf + j]);
            assert(s[pf + j] == d[1 + j]);
            assert(d[1 + j] == pair_doc("file"@, quoted(r.file))[j]);
        }
    }
    lemma_pair_step(s, pf, "file"@, r.file);
    let ef = pf + f + 9;
    let acc0 = ResFieldsV { file: None, html: None };
    let acc1 = ResFieldsV { file: Some(r.file), html: None };
    assert(parse_res_pair(s, pf, acc0) == Some((acc1, ef)));
    assert(s[ef] == d[f + 10]);
    assert(d[f + 10] == ',');
    assert(!is_ws(','));
    assert(skip_ws(s, ef) == ef);
    let ph = ef + 1;
    assert(s[ph] == d[f + 11]);
    assert(d[f + 11] == '"');
    assert(skip_ws(s, ph) == ph);
    // The `html` pair.
    assert(s.subrange(ph, ph + h + 9) =~= pair_doc("html"@, quoted(r.html))) by {
        assert forall|j: int| 0 <= j < h + 9 implies s.subrange(ph, ph + h + 9)[j] == pair_doc(
            "html"@,
            quoted(r.html),
        )[j] by {
            assert(s.subrange(ph, ph + h + 9)[j] == s[ph + j]);
            assert(s[ph + j] == d[f + 11 + j]);
            assert(d[f + 11 + j] == pair_doc("html"@, quoted(r.html))[j]);
        }
    }
    lemma_pair_step(s, ph, "html"@, r.html);
    assert("html"@ != "file"@) by {
        assert("html"@[0] == 'h' && "file"@[0] == 'f');
    }
    let eh = ph + h + 9;
    let acc2 = ResFieldsV { file: Some(r.file), html: Some(r.html) };
    assert(parse_res_pair(s, ph, acc1) == Some((acc2, eh)));
    assert(s[eh] == d[f + h + 20]);
    assert(d[f + h + 20] == '}');
    assert(!is_ws('}'));
    assert(skip_ws(s, eh) == eh);
    assert(parse_res_fields(s, ph, acc1) == Some((acc2, eh + 1)));
    assert(parse_res_fields(s, pf, acc0) == Some((acc2, eh + 1)));
    assert(parse_res_obj(s, v) == Some((PluginResV { file: r.file, html: r.html }, eh + 1)));
    assert(PluginResV { file: r.file, html: r.html } == r);
}

/// Where each field's pair starts in the canonical document.
pub open spec fn off_name(m: PluginInfoV) -> int {
    1
}

pub open spec fn off_version(m: PluginInfoV) -> int {
    off_name(m) + 10 + m.name.len()
}

pub open spec fn off_keyword(m: PluginInfoV) -> int {
    off_version(m) + 13 + m.version.len()
}

pub open spec fn off_luncher(m: PluginInfoV) -> int {
    off_keyword(m) + 11 + keyword_doc(m.keyword).len()
}

pub open spec fn off_res(m: PluginInfoV) -> int {
    off_luncher(m) + 13 + luncher_doc(m.luncher).len()
}

/// Where the closing brace of the whole document sits.
pub open spec fn off_end(m: PluginInfoV) -> int {
    off_res(m) + 6 + res_doc(m.res).len()
}

/// A manifest whose texts can stand in JSON strings without escapes.
pub open spec fn clean_manifest(m: PluginInfoV) -> bool {
    &&& json_clean(m.name)
    &&& json_clean(m.version)
    &&& (m.keyword matches Some(k) ==> json_clean(k))
    &&& json_clean(m.res.file)
    &&& json_clean(m.res.html)
}

#[verifier::rlimit(100)]
proof fn lemma_doc_len(m: PluginInfoV)
    ensures
        manifest_doc(m).len() == off_end(m) + 1,
        res_doc(m.res).len() == m.res.file.len() + m.res.html.len() + 21,
    decreases 0int,
{
    reveal_strlit("name");
    reveal_strlit("version");
    reveal_strlit("keyword");
    reveal_strlit("luncher");
    reveal_strlit("res");
    reveal_strlit("null");
    reveal_strlit("Content");
    reveal_strlit("NewWindow");
    reveal_strlit("file");
    reveal_strlit("html");
}

#[verifier::rlimit(100)]
proof fn lemma_doc_name(m: PluginInfoV)
    requires
        clean_manifest(m),
    ensures
        parse_pair(manifest_doc(m), off_name(m), empty_fields()) == Some(
            (FieldsV { name: Some(m.name), ..empty_fields() }, off_version(m) - 1),
        ),
        manifest_doc(m)[off_version(m) - 1] == ',',
        manifest_doc(m)[off_version(m)] == '"',
    decreases 0int,
{
    reveal_strlit("name");
    let s = manifest_doc(m);
    let p = off_name(m);
    let n1 = m.name.len() as int;
    lemma_doc_len(m);
    assert(json_clean("name"@));
    assert(s.subrange(p, p + 4 + n1 + 5) =~= pair_doc("name"@, quoted(m.name)));
    lemma_pair_step(s, p, "name"@, m.name);
    assert(s[off_version(m) - 1] == ',');
    assert(s[off_version(m)] == '"');
}

#[verifier::rlimit(100)]
proof fn lemma_doc_version(m: PluginInfoV, acc: FieldsV)
    requires
        clean_manifest(m),
        acc.version is None,
    ensures
        parse_pair(manifest_doc(m), off_version(m), acc) == Some(
            (FieldsV { version: Some(m.version), ..acc }, off_keyword(m) - 1),
        ),
        manifest_doc(m)[off_keyword(m) - 1] == ',',
        manifest_doc(m)[off_keyword(m)] == '"',
    decreases 0int,
{
    reveal_strlit("name");
    reveal_strlit("version");
    let s = manifest_doc(m);
    let p = off_version(m);
    let n2 = m.version.len() as int;
    lemma_doc_len(m);
    assert(json_clean("version"@));
    assert("version"@ != "name"@) by {
        assert("version"@.len() == 7 && "name"@.len() == 4);
    }
    assert(s.subrange(p, p + 7 + n2 + 5) =~= pair_doc("version"@, quoted(m.version)));
    lemma_pair_step(s, p, "version"@, m.version);
    assert(s[off_keyword(m) - 1] == ',');
    assert(s[off_keyword(m)] == '"');
}

#[verifier::rlimit(100)]
proof fn lemma_doc_keyword(m: PluginInfoV, acc: FieldsV)
    requires
        clean_manifest(m),
        acc.name is Some,
        acc.version is Some,
        acc.keyword is None,
    ensures
        parse_pair(manifest_doc(m), off_keyword(m), acc) == Some(
            (FieldsV { keyword: Some(m.keyword), ..acc }, off_luncher(m) - 1),
        ),
        manifest_doc(m)[off_luncher(m) - 1] == ',',
        manifest_doc(m)[off_luncher(m)] == '"',
    decreases 0int,
{
    reveal_strlit("name");
    reveal_strlit("version");
    reveal_strlit("keyword");
    reveal_strlit("null");
    let s = manifest_doc(m);
    let p = off_keyword(m);
    let kvl = keyword_doc(m.keyword).len() as int;
    let e = p + 10 + kvl;
    lemma_doc_len(m);
    assert(json_clean("keyword"@));
    assert("keyword"@ != "name"@) by {
        assert("keyword"@.len() == 7 && "name"@.len() == 4);
    }
    assert("keyword"@ != "version"@) by {
        assert("keyword"@[0] == 'k' && "version"@[0] == 'v');
    }
    match m.keyword {
        Some(k) => {
            assert(s.subrange(p, p + 7 + k.len() + 5) =~= pair_doc("keyword"@, quoted(k)));
            lemma_pair_step(s, p, "keyword"@, k);
            assert(parse_keyword_val(s, p + 10) == Some((Some(k), e)));
        }
        None => {
            assert(s[p] == '"');
            assert(s.subrange(p + 1, p + 8) =~= "keyword"@);
            assert(s[p + 8] == '"');
            lemma_parse_quoted(s, p, "keyword"@);
            assert(s[p + 9] == ':');
            assert(!is_ws(':'));
            assert(skip_ws(s, p + 9) == p + 9);
            let v = p + 10;
            assert(s[v] == 'n');
            assert(parse_string(s, v) is None);
            assert(s.subrange(v, v + 4) =~= "null"@);
            assert(expect_lit(s, v, "null"@) == Some(v + 4));
            assert(parse_keyword_val(s, v) == Some((None::<Seq<char>>, e)));
        }
    }
    assert(s[off_luncher(m) - 1] == ',');
    assert(s[off_luncher(m)] == '"');
}

#[verifier::rlimit(100)]
proof fn lemma_doc_luncher(m: PluginInfoV, acc: FieldsV)
    requires
        clean_manifest(m),
        acc.name is Some,
        acc.version is Some,
        acc.keyword is Some,
        acc.luncher is None,
    ensures
        parse_pair(manifest_doc(m), off_luncher(m), acc) == Some(
            (FieldsV { luncher: Some(m.luncher), ..acc }, off_res(m) - 1),
        ),
        manifest_doc(m)[off_res(m) - 1] == ',',
        manifest_doc(m)[off_res(m)] == '"',
    decreases 0int,
{
    reveal_strlit("name");
    reveal_strlit("version");
    reveal_strlit("keyword");
    reveal_strlit("luncher");
    reveal_strlit("Content");
    reveal_strlit("NewWindow");
    let s = manifest_doc(m);
    let p = off_luncher(m);
    let lv = luncher_doc(m.luncher);
    let ll = lv.len() as int;
    let e = p + 7 + ll + 5;
    lemma_doc_len(m);
    assert(json_clean("luncher"@));
    assert("luncher"@ != "name"@) by {
        assert("luncher"@.len() == 7 && "name"@.len() == 4);
    }
    assert("luncher"@ != "version"@) by {
        assert("luncher"@[0] == 'l' && "version"@[0] == 'v');
    }
    assert("luncher"@ != "keyword"@) by {
        assert("luncher"@[0] == 'l' && "keyword"@[0] == 'k');
    }
    assert(json_clean(lv));
    assert(s.subrange(p, p + 7 + ll + 5) =~= pair_doc("luncher"@, quoted(lv)));
    lemma_pair_step(s, p, "luncher"@, lv);
    match m.luncher {
        Launcher::Content => {
            assert(parse_luncher_val(s, p + 10) == Some((Launcher::Content, e)));
        }
        Launcher::NewWindow => {
            assert(lv != "Content"@) by {
                assert(lv.len() == 9 && "Content"@.len() == 7);
            }
            assert(parse_luncher_val(s, p + 10) == Some((Launcher::NewWindow, e)));
        }
    }
    assert(s[off_res(m) - 1] == ',');
    assert(s[off_res(m)] == '"');
}

#[verifier::rlimit(100)]
proof fn lemma_doc_res(m: PluginInfoV, acc: FieldsV)
    requires
        clean_manifest(m),
        acc.name is Some,
        acc.version is Some,
        acc.keyword is Some,
        acc.luncher is Some,
        acc.res is None,
    ensures
        parse_pair(manifest_doc(m), off_res(m), acc) == Some(
            (FieldsV { res: Some(m.res), ..acc }, off_end(m)),
        ),
        manifest_doc(m)[off_end(m)] == '}',
    decreases 0int,
{
    reveal_strlit("name");
    reveal_strlit("version");
    reveal_strlit("keyword");
    reveal_strlit("luncher");
    reveal_strlit("res");
    let s = manifest_doc(m);
    let p = off_res(m);
    let rl = res_doc(m.res).len() as int;
    let v = p + 6;
    lemma_doc_len(m);
    assert(json_clean("res"@));
    assert("res"@ != "name"@) by {
        assert("res"@.len() == 3 && "name"@.len() == 4);
    }
    assert("res"@ != "version"@) by {
        assert("res"@.len() == 3 && "version"@.len() == 7);
    }
    assert("res"@ != "keyword"@) by {
        assert("res"@.len() == 3 && "keyword"@.len() == 7);
    }
    assert("res"@ != "luncher"@) by {
        assert("res"@.len() == 3 && "luncher"@.len() == 7);
    }
    assert(s[p] == '"');
    assert(s.subrange(p + 1, p + 4) =~= "res"@);
    assert(s[p + 4] == '"');
    lemma_parse_quoted(s, p, "res"@);
    assert(s[p + 5] == ':');
    assert(!is_ws(':'));
    assert(skip_ws(s, p + 5) == p + 5);
    assert(s[v] == '{');
    assert(!is_ws('{'));
    assert(skip_ws(s, v) == v);
    assert(s.subrange(v, v + rl) =~= res_doc(m.res));
    lemma_res_obj(s, v, m.res);
    assert(s[off_end(m)] == '}');
}

#[verifier::rlimit(100)]
proof fn lemma_fields_res(m: PluginInfoV, acc: FieldsV)
    requires
        clean_manifest(m),
        acc.name is Some,
        acc.version is Some,
        acc.keyword is Some,
        acc.luncher is Some,
        acc.res is None,
    ensures
        parse_fields(manifest_doc(m), off_res(m), acc) == Some(
            (FieldsV { res: Some(m.res), ..acc }, off_end(m) + 1),
        ),
    decreases 0int,
{
    let s = manifest_doc(m);
    lemma_doc_len(m);
    lemma_doc_res(m, acc);
    assert(!is_ws('}'));
    assert(skip_ws(s, off_end(m)) == off_end(m));
}

#[verifier::rlimit(100)]
proof fn lemma_fields_luncher(m: PluginInfoV, acc: FieldsV)
    requires
        clean_manifest(m),
        acc.name is Some,
        acc.version is Some,
        acc.keyword is Some,
        acc.luncher is None,
        acc.res is None,
    ensures
        parse_fields(manifest_doc(m), off_luncher(m), acc) == Some(
            (
                FieldsV { luncher: Some(m.luncher), res: Some(m.res), ..acc },
                off_end(m) + 1,
            ),
        ),
    decreases 0int,
{
    let s = manifest_doc(m);
    lemma_doc_len(m);
    lemma_doc_luncher(m, acc);
    let acc2 = FieldsV { luncher: Some(m.luncher), ..acc };
    lemma_fields_res(m, acc2);
    assert(!is_ws(','));
    assert(!is_ws('"'));
    assert(skip_ws(s, off_res(m) - 1) == off_res(m) - 1);
    assert(skip_ws(s, off_res(m)) == off_res(m));
}

#[verifier::rlimit(100)]
proof fn lemma_fields_keyword(m: PluginInfoV, acc: FieldsV)
    requires
        clean_manifest(m),
        acc.name is Some,
        acc.version is Some,
        acc.keyword is None,
        acc.luncher is None,
        acc.res is None,
    ensures
        parse_fields(manifest_doc(m), off_keyword(m), acc) == Some(
            (
                FieldsV {
                    keyword: Some(m.keyword),
                    luncher: Some(m.luncher),
                    res: Some(m.res),
                    ..acc
                },
                off_end(m) + 1,
            ),
        ),
    decreases 0int,
{
    let s = manifest_doc(m);
    lemma_doc_len(m);
    lemma_doc_keyword(m, acc);
    let acc2 = FieldsV { keyword: Some(m.keyword), ..acc };
    lemma_fields_luncher(m, acc2);
    assert(!is_ws(','));
    assert(!is_ws('"'));
    assert(skip_ws(s, off_luncher(m) - 1) == off_luncher(m) - 1);
    assert(skip_ws(s, off_luncher(m)) == off_luncher(m));
}

#[verifier::rlimit(100)]
proof fn lemma_fields_version(m: PluginInfoV, acc: FieldsV)
    requires
        clean_manifest(m),
        acc.name is Some,
        acc.version is None,
        acc.keyword is None,
        acc.luncher is None,
        acc.res is None,
    ensures
        parse_fields(manifest_doc(m), off_version(m), acc) == Some(
            (
                FieldsV {
                    version: Some(m.version),
                    keyword: Some(m.keyword),
                    luncher: Some(m.luncher),
                    res: Some(m.res),
                    ..acc
                },
                off_end(m) + 1,
            ),
        ),
    decreases 0int,
{
    let s = manifest_doc(m);
    lemma_doc_len(m);
    lemma_doc_version(m, acc);
    let acc2 = FieldsV { version: Some(m.version), ..acc };
    lemma_fields_keyword(m, acc2);
    assert(!is_ws(','));
    assert(!is_ws('"'));
    assert(skip_ws(s, off_keyword(m) - 1) == off_keyword(m) - 1);
    assert(skip_ws(s, off_keyword(m)) == off_keyword(m));
}

/// Law: parsing inverts printing.  Any manifest whose texts are free of
/// quotes and backslashes can be written out as its canonical document, and
/// the parser returns exactly that manifest from it: the grammar loses
/// nothing a manifest can say.
#[verifier::rlimit(100)]
pub proof fn lemma_parse_manifest_doc(m: PluginInfoV)
    requires
        clean_manifest(m),
    ensures
        spec_parse_manifest(manifest_doc(m)) == Some(m),
{
    let s = manifest_doc(m);
    lemma_doc_len(m);
    lemma_doc_name(m);
    let acc1 = FieldsV { name: Some(m.name), ..empty_fields() };
    lemma_fields_version(m, acc1);
    let acc5 = FieldsV {
        name: Some(m.name),
        version: Some(m.version),
        keyword: Some(m.keyword),
        luncher: Some(m.luncher),
        res: Some(m.res),
    };

    assert(s[0] == '{');
    assert(!is_ws('{'));
    assert(skip_ws(s, 0) == 0);
    assert(0 < s.len());
    assert(s[off_name(m)] == '"') by {
        reveal_strlit("name");
    }
    assert(!is_ws('"'));
    assert(skip_ws(s, off_name(m)) == off_name(m));
    assert(!is_ws(','));
    assert(skip_ws(s, off_version(m) - 1) == off_version(m) - 1);
    assert(skip_ws(s, off_version(m)) == off_version(m));
    assert(parse_fields(s, off_name(m), empty_fields()) == Some((acc5, off_end(m) + 1)));

    assert(skip_ws(s, off_end(m) + 1) == off_end(m) + 1);
    assert(finalize(acc5) == Some(m));
    assert(spec_parse_manifest(s) == Some(m));
}

/// The view of an optional owned string.
pub open spec fn opt_view(o: Option<String>) -> Option<Seq<char>> {
    match o {
        Some(x) => Some(x@),
        None => None,
    }
}

/// The exec counterpart of [`FieldsV`].
struct Fields {
    name: Option<String>,
    version: Option<String>,
    keyword: Option<Option<String>>,
    luncher: Option<Launcher>,
    res: Option<PluginRes>,
}

impl View for Fields {
    type V = FieldsV;

    closed spec fn view(&self) -> FieldsV {
        FieldsV {
            name: opt_view(self.name),
            version: opt_view(self.version),
            keyword: match self.keyword {
                Some(k) => Some(opt_view(k)),
                None => None,
            },
            luncher: self.luncher,
            res: match self.res {
                Some(r) => Some(r@),
                None => None,
            },
        }
    }
}

/// Parses a `keyword` value at `i`.
fn parse_keyword_at(s: &str, i: usize) -> (r: Option<(Option<String>, usize)>)
    requires
        i <= s@.len(),
    ensures
        match r {
            Some(p) => parse_keyword_val(s@, i as int) == Some((opt_view(p.0), p.1 as int)) && i
                <= p.1 <= s@.len(),
            None => parse_keyword_val(s@, i as int) is None,
        },
{
    match parse_string_at(s, i) {
        Some((v, j)) => Some((Some(v), j)),
        None => {
            match expect_lit_at(s, i, "null") {
                Some(j) => Some((None, j)),
                None => None,
            }
        }
    }
}

/// Parses a `luncher` value at `i`.
fn parse_luncher_at(s: &str, i: usize) -> (r: Option<(Launcher, usize)>)
    requires
        i <= s@.len(),
    ensures
        match r {
            Some(p) => parse_luncher_val(s@, i as int) == Some((p.0, p.1 as int)) && i < p.1
                <= s@.len(),
            None => parse_luncher_val(s@, i as int) is None,
        },
{
    match parse_string_at(s, i) {
        Some((v, j)) => {
            if crate::strings::str_eq(v.as_str(), "Content") {
                Some((Launcher::Content, j))
            } else if crate::strings::str_eq(v.as_str(), "NewWindow") {
                Some((Launcher::NewWindow, j))
            } else {
                None
            }
        }
        None => None,
    }
}

/// Parses one pair of the `res` object at `i`, folding it into the two
/// accumulators.
fn parse_res_pair_at(s: &str, i: usize, file: Option<String>, html: Option<String>) -> (r: Option<
    (Option<String>, Option<String>, usize),
>)
    requires
        i <= s@.len(),
    ensures
        match r {
            Some(p) => parse_res_pair(
                s@,
                i as int,
                ResFieldsV { file: opt_view(file), html: opt_view(html) },
            ) == Some((ResFieldsV { file: opt_view(p.0), html: opt_view(p.1) }, p.2 as int)) && i
                < p.2 <= s@.len(),
            None => parse_res_pair(
                s@,
                i as int,
                ResFieldsV { file: opt_view(file), html: opt_view(html) },
            ) is None,
        },
{
    let (key, j) = match parse_string_at(s, i) {
        Some(p) => p,
        None => {
            return None;
        }
    };
    let k = skip_ws_from(s, j);
    if !(k < s.unicode_len() && s.get_char(k) == ':') {
        return None;
    }
    let v = skip_ws_from(s, k + 1);
    if crate::strings::str_eq(key.as_str(), "file") {
        if file.is_some() {
            return None;
        }
        match parse_string_at(s, v) {
            Some((val, e)) => Some((Some(val), html, e)),
            None => None,
        }
    } else if crate::strings::str_eq(key.as_str(), "html") {
        if html.is_some() {
            return None;
        }
        match parse_string_at(s, v) {
            Some((val, e)) => Some((file, Some(val), e)),
            None => None,
        }
    } else {
        None
    }
}

/// Parses the `res` object at `i`.
fn parse_res_obj_at(s: &str, i: usize) -> (r: Option<(PluginRes, usize)>)
    requires
        i <= s@.len(),
    ensures
        match r {
            Some(p) => parse_res_obj(s@, i as int) == Some((p.0@, p.1 as int)) && i < p.1
                <= s@.len(),
            None => parse_res_obj(s@, i as int) is None,
        },
{
    let n = s.unicode_len();
    if i >= n || s.get_char(i) != '{' {
        return None;
    }
    let j0 = skip_ws_from(s, i + 1);
    let mut file: Option<String> = None;
    let mut html: Option<String> = None;
    let mut pos = j0;
    loop
        invariant
            n == s@.len(),
            i < n,
            s@[i as int] == '{',
            j0 == skip_ws(s@, i + 1),
            i + 1 <= j0 <= n,
            j0 <= pos <= n,
            parse_res_fields(s@, j0 as int, ResFieldsV { file: None, html: None })
                == parse_res_fields(
                s@,
                pos as int,
                ResFieldsV { file: opt_view(file), html: opt_view(html) },
            ),
        decreases n - pos,
    {
        let ghost acc_before = ResFieldsV { file: opt_view(file), html: opt_view(html) };
        match parse_res_pair_at(s, pos, file, html) {
            None => {
                return None;
            }
            Some((f2, h2, j)) => {
                let ghost acc_after = ResFieldsV { file: opt_view(f2), html: opt_view(h2) };
                let k = skip_ws_from(s, j);
                if k < n && s.get_char(k) == ',' {
                    let m = skip_ws_from(s, k + 1);
                    proof {
                        assert(parse_res_fields(s@, pos as int, acc_before) == parse_res_fields(
                            s@,
                            m as int,
                            acc_after,
                        ));
                    }
                    file = f2;
                    html = h2;
                    pos = m;
                } else if k < n && s.get_char(k) == '}' {
                    proof {
                        assert(parse_res_fields(s@, pos as int, acc_before) == Some(
                            (acc_after, k as int + 1),
                        ));
                    }
                    match (f2, h2) {
                        (Some(f), Some(h)) => {
                            let out = PluginRes { file: f, html: h };
                            return Some((out, k + 1));
                        }
                        _ => {
                            return None;
                        }
                    }
                } else {
                    return None;
                }
            }
        }
    }
}

/// Parses one pair of the manifest object at `i`, folding it into `acc`.
fn parse_pair_at(s: &str, i: usize, acc: Fields) -> (r: Option<(Fields, usize)>)
    requires
        i <= s@.len(),
    ensures
        match r {
            Some(p) => parse_pair(s@, i as int, acc@) == Some((p.0@, p.1 as int)) && i < p.1
                <= s@.len(),
            None => parse_pair(s@, i as int, acc@) is None,
        },
{
    let mut acc = acc;
    let (key, j) = match parse_string_at(s, i) {
        Some(p) => p,
        None => {
            return None;
        }
    };
    let k = skip_ws_from(s, j);
    if !(k < s.unicode_len() && s.get_char(k) == ':') {
        return None;
    }
    let v = skip_ws_from(s, k + 1);
    if crate::strings::str_eq(key.as_str(), "name") {
        if acc.name.is_some() {
            return None;
        }
        match parse_string_at(s, v) {
            Some((val, e)) => {
                acc.name = Some(val);
                Some((acc, e))
            }
            None => None,
        }
    } else if crate::strings::str_eq(key.as_str(), "version") {
        if acc.version.is_some() {
            return None;
        }
        match parse_string_at(s, v) {
            Some((val, e)) => {
                acc.version = Some(val);
                Some((acc, e))
            }
            None => None,
        }
    } else if crate::strings::str_eq(key.as_str(), "keyword") {
        if acc.keyword.is_some() {
            return None;
        }
        match parse_keyword_at(s, v) {
            Some((val, e)) => {
                acc.keyword = Some(val);
                Some((acc, e))
            }
            None => None,
        }
    } else if crate::strings::str_eq(key.as_str(), "luncher") {
        if acc.luncher.is_some() {
            return None;
        }
        match parse_luncher_at(s, v) {
            Some((val, e)) => {
                acc.luncher = Some(val);
                Some((acc, e))
            }
            None => None,
        }
    } else if crate::strings::str_eq(key.as_str(), "res") {
        if acc.res.is_some() {
            return None;
        }
        match parse_res_obj_at(s, v) {
            Some((val, e)) => {
                acc.res = Some(val);
                Some((acc, e))
            }
            None => None,
        }
    } else {
        None
    }
}

/// Parses a manifest document.  Returns the manifest the document denotes,
/// or a parse error exactly when [`spec_parse_manifest`] denotes none.
pub fn parse_manifest(text: &str) -> (r: Result<PluginInfo, PluginError>)
    ensures
        match r {
            Ok(m) => spec_parse_manifest(text@) == Some(m@),
            Err(e) => e is ManifestParse && spec_parse_manifest(text@) is None,
        },
{
    let n = text.unicode_len();
    let i = skip_ws_from(text, 0);
    if i >= n || text.get_char(i) != '{' {
        return Err(PluginError::ManifestParse);
    }
    let j0 = skip_ws_from(text, i + 1);
    let mut acc = Fields { name: None, version: None, keyword: None, luncher: None, res: None };
    let mut pos = j0;
    loop
        invariant
            n == text@.len(),
            i == skip_ws(text@, 0),
            i < n,
            text@[i as int] == '{',
            j0 == skip_ws(text@, i + 1),
            i + 1 <= j0 <= n,
            j0 <= pos <= n,
            parse_fields(text@, j0 as int, empty_fields()) == parse_fields(
                text@,
                pos as int,
                acc@,
            ),
        decreases n - pos,
    {
        let ghost acc_before = acc@;
        match parse_pair_at(text, pos, acc) {
            None => {
                return Err(PluginError::ManifestParse);
            }
            Some((acc2, j)) => {
                let k = skip_ws_from(text, j);
                if k < n && text.get_char(k) == ',' {
                    let m = skip_ws_from(text, k + 1);
                    proof {
                        assert(parse_fields(text@, pos as int, acc_before) == parse_fields(
                            text@,
                            m as int,
                            acc2@,
                        ));
                    }
                    acc = acc2;
                    pos = m;
                } else if k < n && text.get_char(k) == '}' {
                    proof {
                        assert(parse_fields(text@, pos as int, acc_before) == Some(
                            (acc2@, k as int + 1),
                        ));
                    }
                    let t = skip_ws_from(text, k + 1);
                    if t < n {
                        return Err(PluginError::ManifestParse);
                    }
                    let name = match acc2.name {
                        Some(x) => x,
                        None => {
                            return Err(PluginError::ManifestParse);
                        }
                    };
                    let version = match acc2.version {
                        Some(x) => x,
                        None => {
                            return Err(PluginError::ManifestParse);
                        }
                    };
                    let res = match acc2.res {
                        Some(x) => x,
                        None => {
                            return Err(PluginError::ManifestParse);
                        }
                    };
                    let keyword = match acc2.keyword {
                        Some(k) => k,
                        None => None,
                    };
                    let luncher = match acc2.luncher {
                        Some(l) => l,
                        None => Launcher::NewWindow,
                    };
                    return Ok(PluginInfo { name, version, keyword, luncher, res });
                } else {
                    return Err(PluginError::ManifestParse);
                }
            }
        }
    }
}

} // verus!
