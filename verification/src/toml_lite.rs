//! The descriptor file format: a line-oriented TOML subset, read into a
//! `Document`.  A file is a sequence of lines; a line, once trimmed, is
//! blank, a `#` comment, a `[section]` header, or a `key = value`
//! binding in the section last opened.  A value is a quoted string
//! without inner quotes, an integer of at most eighteen digits, `true`
//! or `false`, a one-line array `[ ... ]` of such scalars, or a
//! one-line table `{ k = v, ... }` of them; commas inside quoted
//! strings are not supported and make the file rejected.  A repeated
//! section or key stays in the document, but lookups take the first.

use vstd::prelude::*;
use crate::strutil::slice_of;

verus! {

/// Splits at every occurrence of `sep`; always at least one piece, and
/// the separators themselves appear in no piece.
pub open spec fn split_on(s: Seq<char>, sep: char) -> Seq<Seq<char>>
    decreases s.len(),
{
    if s.len() == 0 {
        seq![Seq::<char>::empty()]
    } else if s[0] == sep {
        seq![Seq::<char>::empty()] + split_on(s.skip(1), sep)
    } else {
        let rest = split_on(s.skip(1), sep);
        seq![seq![s[0]] + rest[0]] + rest.skip(1)
    }
}

/// Splitting yields one piece more than there are separators, never
/// none.
pub proof fn lemma_split_on_len(s: Seq<char>, sep: char)
    ensures
        split_on(s, sep).len() >= 1,
    decreases s.len(),
{
    if s.len() > 0 {
        lemma_split_on_len(s.skip(1), sep);
    }
}

/// Over a stretch without the separator, splitting takes the stretch
/// whole as the head piece.
proof fn lemma_split_chunk(s: Seq<char>, sep: char, i: int, j: int)
    requires
        0 <= i <= j <= s.len(),
        forall|k: int| i <= k < j ==> s[k] != sep,
        j < s.len() ==> s[j] == sep,
    ensures
        split_on(s.skip(i), sep) == if j < s.len() {
            seq![s.subrange(i, j)] + split_on(s.skip(j + 1), sep)
        } else {
            seq![s.subrange(i, j)]
        },
    decreases j - i,
{
    lemma_split_on_len(s.skip(i), sep);
    if i == j {
        if j < s.len() {
            assert(s.skip(i)[0] == sep);
            assert(s.skip(i).skip(1) =~= s.skip(j + 1));
            assert(s.subrange(i, j) =~= Seq::<char>::empty());
        } else {
            assert(s.skip(i).len() == 0);
            assert(s.subrange(i, j) =~= Seq::<char>::empty());
            assert(split_on(s.skip(i), sep) =~= seq![s.subrange(i, j)]);
        }
    } else {
        assert(s.skip(i)[0] == s[i]);
        assert(s[i] != sep);
        assert(s.skip(i).skip(1) =~= s.skip(i + 1));
        lemma_split_chunk(s, sep, i + 1, j);
        let rest = split_on(s.skip(i + 1), sep);
        assert(split_on(s.skip(i), sep) == seq![seq![s[i]] + rest[0]] + rest.skip(1));
        if j < s.len() {
            assert(rest[0] == s.subrange(i + 1, j));
            assert(rest.skip(1) =~= split_on(s.skip(j + 1), sep));
            assert(seq![s[i]] + s.subrange(i + 1, j) =~= s.subrange(i, j));
        } else {
            assert(rest =~= seq![s.subrange(i + 1, j)]);
            assert(rest.skip(1) =~= Seq::<Seq<char>>::empty());
            assert(seq![s[i]] + s.subrange(i + 1, j) =~= s.subrange(i, j));
            assert(seq![seq![s[i]] + rest[0]] + rest.skip(1) =~= seq![s.subrange(i, j)]);
        }
    }
}

/// Splits a string at every occurrence of `sep`.
pub fn split_str(s: &str, sep: char) -> (r: Vec<String>)
    ensures
        r@.map_values(|p: String| p@) == split_on(s@, sep),
{
    let len = s.unicode_len();
    let mut r: Vec<String> = Vec::new();
    let mut i: usize = 0;
    proof {
        assert(s@.skip(0) =~= s@);
    }
    loop
        invariant
            i <= len,
            len == s@.len(),
            r@.map_values(|p: String| p@) + split_on(s@.skip(i as int), sep) =~= split_on(s@, sep),
        decreases len - i + 1,
    {
        let mut j = i;
        while j < len && s.get_char(j) != sep
            invariant
                i <= j <= len,
                len == s@.len(),
                forall|k: int| i <= k < j ==> s@[k] != sep,
            decreases len - j,
        {
            j += 1;
        }
        let piece = slice_of(s, i, j);
        proof {
            lemma_split_chunk(s@, sep, i as int, j as int);
            lemma_split_on_len(s@.skip(j as int + 1), sep);
        }
        let ghost pre = r@;
        r.push(piece);
        proof {
            assert(r@.map_values(|p: String| p@) =~= pre.map_values(|p: String| p@).push(
                s@.subrange(i as int, j as int),
            ));
        }
        if j < len {
            i = j + 1;
        } else {
            proof {
                assert(r@.map_values(|p: String| p@) =~= split_on(s@, sep));
            }
            return r;
        }
    }
}

/// The characters that the line grammar counts as blank space.
pub open spec fn is_space(c: char) -> bool {
    c == ' ' || c == '\t' || c == '\r'
}

/// `s` without its leading blank space.
pub open spec fn trim_front(s: Seq<char>) -> Seq<char>
    decreases s.len(),
{
    if s.len() > 0 && is_space(s[0]) {
        trim_front(s.skip(1))
    } else {
        s
    }
}

/// `s` without its trailing blank space.
pub open spec fn trim_back(s: Seq<char>) -> Seq<char>
    decreases s.len(),
{
    if s.len() > 0 && is_space(s.last()) {
        trim_back(s.drop_last())
    } else {
        s
    }
}

/// `s` without leading and trailing blank space.
pub open spec fn spec_trim(s: Seq<char>) -> Seq<char> {
    trim_front(trim_back(s))
}

proof fn lemma_trim_back_take(s: Seq<char>, b: int)
    requires
        0 <= b <= s.len(),
        forall|k: int| b <= k < s.len() ==> is_space(s[k]),
        b > 0 ==> !is_space(s[b - 1]),
    ensures
        trim_back(s) == s.take(b),
    decreases s.len() - b,
{
    if b == s.len() {
        if b > 0 {
            assert(trim_back(s) == s);
            assert(s.take(b) =~= s);
        } else {
            assert(s.len() == 0);
            assert(s.take(b) =~= s);
        }
    } else {
        assert(is_space(s.last()));
        lemma_trim_back_take(s.drop_last(), b);
        assert(s.drop_last().take(b) =~= s.take(b));
    }
}

proof fn lemma_trim_front_skip(s: Seq<char>, a: int)
    requires
        0 <= a <= s.len(),
        forall|k: int| 0 <= k < a ==> is_space(s[k]),
        a < s.len() ==> !is_space(s[a]),
    ensures
        trim_front(s) == s.skip(a),
    decreases a,
{
    if a == 0 {
        if s.len() > 0 {
            assert(!is_space(s[0]));
        }
        assert(s.skip(0) =~= s);
    } else {
        assert(is_space(s[0]));
        assert(trim_front(s) == trim_front(s.skip(1)));
        lemma_trim_front_skip(s.skip(1), a - 1);
        assert(s.skip(1).skip(a - 1) =~= s.skip(a));
    }
}

fn is_space_char(c: char) -> (r: bool)
    ensures
        r == is_space(c),
{
    c == ' ' || c == '\t' || c == '\r'
}

/// Trims leading and trailing blank space off a string.
pub fn trim_str(s: &str) -> (r: String)
    ensures
        r@ == spec_trim(s@),
{
    let len = s.unicode_len();
    let mut b = len;
    while b > 0 && is_space_char(s.get_char(b - 1))
        invariant
            b <= len,
            len == s@.len(),
            forall|k: int| b <= k < len ==> is_space(s@[k]),
        decreases b,
    {
        b -= 1;
    }
    proof {
        lemma_trim_back_take(s@, b as int);
    }
    let mut a: usize = 0;
    while a < b && is_space_char(s.get_char(a))
        invariant
            a <= b <= len,
            len == s@.len(),
            forall|k: int| 0 <= k < a ==> is_space(s@[k]),
        decreases b - a,
    {
        a += 1;
    }
    let r = slice_of(s, a, b);
    proof {
        let tb = s@.take(b as int);
        assert(forall|k: int| 0 <= k < a ==> is_space(tb[k]));
        if (a as int) < tb.len() {
            assert(!is_space(tb[a as int]));
        }
        lemma_trim_front_skip(tb, a as int);
        assert(tb.skip(a as int) =~= s@.subrange(a as int, b as int));
    }
    r
}

/// The shape of a scalar value.
pub enum ScalarV {
    S(Seq<char>),
    I(int),
    B(bool),
}

/// The shape of a parsed item.
pub enum ItemV {
    Str(Seq<char>),
    Int(int),
    Bool(bool),
    Arr(Seq<ScalarV>),
    Table(Seq<(Seq<char>, ScalarV)>),
}

/// The shape of one classified line.
pub enum LineV {
    Blank,
    Header(Seq<char>),
    Binding(Seq<char>, ItemV),
    Bad,
}

/// The shape of a parsed document: sections of keyed items, in order.
pub type DocV = Seq<(Seq<char>, Seq<(Seq<char>, ItemV)>)>;

/// An item holds the value a scalar shape describes.
pub open spec fn scalar_matches(it: crate::value::Item, v: ScalarV) -> bool {
    match v {
        ScalarV::S(t) => it matches crate::value::Item::Str(s) && s@ == t,
        ScalarV::I(m) => it matches crate::value::Item::Int(n) && n as int == m,
        ScalarV::B(c) => it matches crate::value::Item::Bool(b) && b == c,
    }
}

/// An item holds the value an item shape describes.
pub open spec fn item_matches(it: crate::value::Item, v: ItemV) -> bool {
    match v {
        ItemV::Str(t) => it matches crate::value::Item::Str(s) && s@ == t,
        ItemV::Int(m) => it matches crate::value::Item::Int(n) && n as int == m,
        ItemV::Bool(c) => it matches crate::value::Item::Bool(b) && b == c,
        ItemV::Arr(elems) => it matches crate::value::Item::Arr(items) && items@.len()
            == elems.len() && (forall|k: int|
            0 <= k < elems.len() ==> scalar_matches(#[trigger] items@[k], elems[k])),
        ItemV::Table(entries) => it matches crate::value::Item::Table(ents) && ents@.len()
            == entries.len() && (forall|k: int|
            0 <= k < entries.len() ==> (#[trigger] ents@[k]).0@ == entries[k].0 && scalar_matches(
                ents@[k].1,
                entries[k].1,
            )),
    }
}

/// A document holds what a document shape describes.
pub open spec fn doc_matches(doc: crate::value::Document, m: DocV) -> bool {
    &&& doc.sections@.len() == m.len()
    &&& forall|i: int|
        0 <= i < m.len() ==> (#[trigger] doc.sections@[i]).0@ == m[i].0 && section_matches(
            doc.sections@[i].1,
            m[i].1,
        )
}

/// A section holds what a section shape describes.
pub open spec fn section_matches(
    ents: Vec<(String, crate::value::Item)>,
    m: Seq<(Seq<char>, ItemV)>,
) -> bool {
    &&& ents@.len() == m.len()
    &&& forall|j: int|
        0 <= j < m.len() ==> (#[trigger] ents@[j]).0@ == m[j].0 && item_matches(
            ents@[j].1,
            m[j].1,
        )
}

/// Reads one scalar: a quoted string without inner quotes, `true`,
/// `false`, or a signed numeral.
pub open spec fn spec_parse_scalar(v: Seq<char>) -> Option<ScalarV> {
    if v.len() >= 2 && v[0] == '"' && v.last() == '"' && (forall|k: int|
        1 <= k < v.len() - 1 ==> v[k] != '"') {
        Option::Some(ScalarV::S(v.subrange(1, v.len() - 1)))
    } else if v == "true"@ {
        Option::Some(ScalarV::B(true))
    } else if v == "false"@ {
        Option::Some(ScalarV::B(false))
    } else if crate::strutil::is_signed_numeral(v) {
        Option::Some(ScalarV::I(crate::strutil::signed_numeral_val(v)))
    } else {
        Option::None
    }
}

/// Reads a comma-separated run of scalars, each trimmed.
pub open spec fn spec_parse_pieces(ps: Seq<Seq<char>>) -> Option<Seq<ScalarV>>
    decreases ps.len(),
{
    if ps.len() == 0 {
        Option::Some(Seq::empty())
    } else {
        match spec_parse_scalar(spec_trim(ps[0])) {
            Option::Some(sv) => match spec_parse_pieces(ps.skip(1)) {
                Option::Some(rest) => Option::Some(seq![sv] + rest),
                Option::None => Option::None,
            },
            Option::None => Option::None,
        }
    }
}

/// The first position of `c` in `s`, if it occurs.
pub open spec fn first_idx(s: Seq<char>, c: char) -> Option<int>
    decreases s.len(),
{
    if s.len() == 0 {
        Option::None
    } else if s[0] == c {
        Option::Some(0)
    } else {
        match first_idx(s.skip(1), c) {
            Option::Some(i) => Option::Some(i + 1),
            Option::None => Option::None,
        }
    }
}

/// Reads one `key = scalar` piece of an inline table.
pub open spec fn spec_parse_pair(p: Seq<char>) -> Option<(Seq<char>, ScalarV)> {
    match first_idx(p, '=') {
        Option::Some(e) => {
            let key = spec_trim(p.take(e));
            let val = spec_trim(p.skip(e + 1));
            if key.len() >= 1 {
                match spec_parse_scalar(val) {
                    Option::Some(sv) => Option::Some((key, sv)),
                    Option::None => Option::None,
                }
            } else {
                Option::None
            }
        },
        Option::None => Option::None,
    }
}

/// Reads a comma-separated run of `key = scalar` pieces.
pub open spec fn spec_parse_pair_pieces(ps: Seq<Seq<char>>) -> Option<Seq<(Seq<char>, ScalarV)>>
    decreases ps.len(),
{
    if ps.len() == 0 {
        Option::Some(Seq::empty())
    } else {
        match spec_parse_pair(ps[0]) {
            Option::Some(kv) => match spec_parse_pair_pieces(ps.skip(1)) {
                Option::Some(rest) => Option::Some(seq![kv] + rest),
                Option::None => Option::None,
            },
            Option::None => Option::None,
        }
    }
}

/// Reads one value: an array, an inline table, or a scalar.
pub open spec fn spec_parse_value(v: Seq<char>) -> Option<ItemV> {
    if v.len() >= 1 && v[0] == '[' {
        if v.len() >= 2 && v.last() == ']' {
            let inner = v.subrange(1, v.len() - 1);
            if spec_trim(inner).len() == 0 {
                Option::Some(ItemV::Arr(Seq::empty()))
            } else {
                match spec_parse_pieces(split_on(inner, ',')) {
                    Option::Some(elems) => Option::Some(ItemV::Arr(elems)),
                    Option::None => Option::None,
                }
            }
        } else {
            Option::None
        }
    } else if v.len() >= 1 && v[0] == '{' {
        if v.len() >= 2 && v.last() == '}' {
            let inner = v.subrange(1, v.len() - 1);
            if spec_trim(inner).len() == 0 {
                Option::Some(ItemV::Table(Seq::empty()))
            } else {
                match spec_parse_pair_pieces(split_on(inner, ',')) {
                    Option::Some(entries) => Option::Some(ItemV::Table(entries)),
                    Option::None => Option::None,
                }
            }
        } else {
            Option::None
        }
    } else {
        match spec_parse_scalar(v) {
            Option::Some(ScalarV::S(t)) => Option::Some(ItemV::Str(t)),
            Option::Some(ScalarV::I(m)) => Option::Some(ItemV::Int(m)),
            Option::Some(ScalarV::B(b)) => Option::Some(ItemV::Bool(b)),
            Option::None => Option::None,
        }
    }
}

/// Classifies one raw line.
pub open spec fn spec_classify(line: Seq<char>) -> LineV {
    let t = spec_trim(line);
    if t.len() == 0 {
        LineV::Blank
    } else if t[0] == '#' {
        LineV::Blank
    } else if t[0] == '[' {
        if t.len() >= 2 && t.last() == ']' {
            LineV::Header(spec_trim(t.subrange(1, t.len() - 1)))
        } else {
            LineV::Bad
        }
    } else {
        match first_idx(t, '=') {
            Option::Some(e) => {
                let key = spec_trim(t.take(e));
                let val = spec_trim(t.skip(e + 1));
                if key.len() >= 1 {
                    match spec_parse_value(val) {
                        Option::Some(it) => LineV::Binding(key, it),
                        Option::None => LineV::Bad,
                    }
                } else {
                    LineV::Bad
                }
            },
            Option::None => LineV::Bad,
        }
    }
}

/// Folds the classified lines into a document: a header opens a
/// section, a binding joins the section last opened, and a bad line or
/// a binding before any header rejects the file.
pub open spec fn spec_parse_lines(lines: Seq<Seq<char>>, acc: DocV) -> Option<DocV>
    decreases lines.len(),
{
    if lines.len() == 0 {
        Option::Some(acc)
    } else {
        match spec_classify(lines[0]) {
            LineV::Blank => spec_parse_lines(lines.skip(1), acc),
            LineV::Header(name) => spec_parse_lines(
                lines.skip(1),
                acc.push((name, Seq::empty())),
            ),
            LineV::Binding(key, it) => if acc.len() == 0 {
                Option::None
            } else {
                spec_parse_lines(
                    lines.skip(1),
                    acc.update(
                        acc.len() - 1,
                        (acc.last().0, acc.last().1.push((key, it))),
                    ),
                )
            },
            LineV::Bad => Option::None,
        }
    }
}

/// What a whole descriptor text parses to.
pub open spec fn spec_parse_doc(s: Seq<char>) -> Option<DocV> {
    spec_parse_lines(split_on(s, '\n'), Seq::empty())
}

/// A scan that passed position `j` without finding `c` pins down where
/// `c` first occurs.
proof fn lemma_first_idx_at(s: Seq<char>, c: char, j: int)
    requires
        0 <= j <= s.len(),
        forall|k: int| 0 <= k < j ==> s[k] != c,
        j < s.len() ==> s[j] == c,
    ensures
        first_idx(s, c) == if j < s.len() {
            Option::Some(j)
        } else {
            Option::<int>::None
        },
    decreases j,
{
    if j == 0 {
        if s.len() == 0 {
        } else {
            assert(s[0] == c);
        }
    } else {
        assert(s[0] != c);
        assert(s.skip(1).len() == s.len() - 1);
        assert(forall|k: int| 0 <= k < j - 1 ==> s.skip(1)[k] != c);
        lemma_first_idx_at(s.skip(1), c, j - 1);
    }
}

/// Finds the first position of `c` in `s`.
fn find_char(s: &str, c: char) -> (r: Option<usize>)
    ensures
        match r {
            Some(j) => first_idx(s@, c) == Option::Some(j as int) && j < s@.len(),
            None => first_idx(s@, c) is None,
        },
{
    let len = s.unicode_len();
    let mut j: usize = 0;
    while j < len && s.get_char(j) != c
        invariant
            j <= len,
            len == s@.len(),
            forall|k: int| 0 <= k < j ==> s@[k] != c,
        decreases len - j,
    {
        j += 1;
    }
    proof {
        lemma_first_idx_at(s@, c, j as int);
    }
    if j < len {
        Some(j)
    } else {
        None
    }
}

/// Reads one scalar value.
fn parse_scalar(v: &str) -> (r: Option<crate::value::Item>)
    ensures
        match r {
            Some(it) => spec_parse_scalar(v@) matches Option::Some(sv) && scalar_matches(it, sv),
            None => spec_parse_scalar(v@) is None,
        },
{
    let len = v.unicode_len();
    if len >= 1 && v.get_char(0) == '"' {
        proof {
            reveal_strlit("true");
            reveal_strlit("false");
            assert(v@ != "true"@);
            assert(v@ != "false"@);
            assert(!crate::strutil::is_signed_numeral(v@)) by {
                if crate::strutil::is_signed_numeral(v@) {
                    assert(crate::strutil::is_digit(v@[0]));
                }
            }
        }
        if len >= 2 && v.get_char(len - 1) == '"' {
            let mut k: usize = 1;
            while k < len - 1 && v.get_char(k) != '"'
                invariant
                    1 <= k <= len - 1,
                    len == v@.len(),
                    len >= 2,
                    forall|q: int| 1 <= q < k ==> v@[q] != '"',
                decreases len - k,
            {
                k += 1;
            }
            if k == len - 1 {
                let inner = slice_of(v, 1, len - 1);
                Some(crate::value::Item::Str(inner))
            } else {
                None
            }
        } else {
            None
        }
    } else if crate::strutil::str_eq(v, "true") {
        proof {
            assert(spec_parse_scalar(v@) == Option::Some(ScalarV::B(true))) by {
                if v@.len() >= 2 && v@[0] == '"' && v@.last() == '"' && (forall|k: int|
                    1 <= k < v@.len() - 1 ==> v@[k] != '"') {
                    reveal_strlit("true");
                    assert(v@[0] == 't');
                }
            }
        }
        Some(crate::value::Item::Bool(true))
    } else if crate::strutil::str_eq(v, "false") {
        proof {
            assert(spec_parse_scalar(v@) == Option::Some(ScalarV::B(false))) by {
                if v@.len() >= 2 && v@[0] == '"' && v@.last() == '"' && (forall|k: int|
                    1 <= k < v@.len() - 1 ==> v@[k] != '"') {
                    reveal_strlit("false");
                    assert(v@[0] == 'f');
                }
                reveal_strlit("true");
                reveal_strlit("false");
            }
        }
        Some(crate::value::Item::Bool(false))
    } else {
        proof {
            if v@.len() >= 2 && v@[0] == '"' && v@.last() == '"' {
                assert(v@[0] == '"');
            }
        }
        match crate::strutil::parse_i64(v) {
            Some(n) => Some(crate::value::Item::Int(n)),
            None => None,
        }
    }
}

/// Reads the scalars of a comma-separated run, each trimmed.
fn parse_pieces(pieces: &Vec<String>) -> (r: Option<Vec<crate::value::Item>>)
    ensures
        match r {
            Some(items) => spec_parse_pieces(pieces@.map_values(|p: String| p@)) matches
                Option::Some(elems) && items@.len() == elems.len() && (forall|k: int|
                0 <= k < elems.len() ==> scalar_matches(#[trigger] items@[k], elems[k])),
            None => spec_parse_pieces(pieces@.map_values(|p: String| p@)) is None,
        },
{
    let ghost pvs = pieces@.map_values(|p: String| p@);
    let mut items: Vec<crate::value::Item> = Vec::new();
    let ghost front: Seq<ScalarV> = Seq::empty();
    let mut front_g = Ghost(front);
    let mut i: usize = 0;
    let n = pieces.len();
    proof {
        assert(pvs.skip(0) =~= pvs);
    }
    while i < n
        invariant
            i <= n,
            n == pieces@.len(),
            pvs == pieces@.map_values(|p: String| p@),
            items@.len() == front_g@.len(),
            forall|k: int|
                0 <= k < front_g@.len() ==> scalar_matches(#[trigger] items@[k], front_g@[k]),
            spec_parse_pieces(pvs) == match spec_parse_pieces(pvs.skip(i as int)) {
                Option::Some(t) => Option::Some(front_g@ + t),
                Option::None => Option::<Seq<ScalarV>>::None,
            },
        decreases n - i,
    {
        proof {
            assert(pvs.skip(i as int)[0] == pvs[i as int]);
            assert(pvs.skip(i as int).skip(1) =~= pvs.skip(i as int + 1));
        }
        let t = trim_str(pieces[i].as_str());
        match parse_scalar(t.as_str()) {
            Some(it) => {
                let ghost sv = spec_parse_scalar(spec_trim(pvs[i as int]))->0;
                items.push(it);
                proof {
                    front_g@ = front_g@.push(sv);
                    assert(spec_parse_pieces(pvs.skip(i as int)) == (match spec_parse_pieces(
                        pvs.skip(i as int + 1),
                    ) {
                        Option::Some(rest) => Option::Some(seq![sv] + rest),
                        Option::None => Option::<Seq<ScalarV>>::None,
                    }));
                    assert(forall|t2: Seq<ScalarV>|
                        front_g@ + t2 =~= (front_g@.drop_last() + (seq![sv] + t2)));
                }
            },
            None => {
                return None;
            },
        }
        i += 1;
    }
    proof {
        assert(pvs.skip(n as int).len() == 0);
        assert(spec_parse_pieces(pvs.skip(n as int)) == Option::Some(Seq::<ScalarV>::empty()));
        assert(front_g@ + Seq::<ScalarV>::empty() =~= front_g@);
    }
    Some(items)
}

/// Reads one `key = scalar` piece of an inline table.
fn parse_pair(p: &str) -> (r: Option<(String, crate::value::Item)>)
    ensures
        match r {
            Some(kv) => spec_parse_pair(p@) matches Option::Some(m) && kv.0@ == m.0
                && scalar_matches(kv.1, m.1),
            None => spec_parse_pair(p@) is None,
        },
{
    match find_char(p, '=') {
        Some(e) => {
            let plen = p.unicode_len();
            let keyraw = slice_of(p, 0, e);
            let key = trim_str(keyraw.as_str());
            let valraw = slice_of(p, e + 1, plen);
            let val = trim_str(valraw.as_str());
            proof {
                assert(p@.subrange(0, e as int) =~= p@.take(e as int));
                assert(p@.subrange(e as int + 1, p@.len() as int) =~= p@.skip(e as int + 1));
            }
            if key.unicode_len() >= 1 {
                match parse_scalar(val.as_str()) {
                    Some(it) => Some((key, it)),
                    None => None,
                }
            } else {
                None
            }
        },
        None => None,
    }
}

/// Reads the pairs of a comma-separated run.
fn parse_pair_pieces(pieces: &Vec<String>) -> (r: Option<Vec<(String, crate::value::Item)>>)
    ensures
        match r {
            Some(ents) => spec_parse_pair_pieces(pieces@.map_values(|p: String| p@)) matches
                Option::Some(m) && ents@.len() == m.len() && (forall|k: int|
                0 <= k < m.len() ==> (#[trigger] ents@[k]).0@ == m[k].0 && scalar_matches(
                    ents@[k].1,
                    m[k].1,
                )),
            None => spec_parse_pair_pieces(pieces@.map_values(|p: String| p@)) is None,
        },
{
    let ghost pvs = pieces@.map_values(|p: String| p@);
    let mut ents: Vec<(String, crate::value::Item)> = Vec::new();
    let ghost front: Seq<(Seq<char>, ScalarV)> = Seq::empty();
    let mut front_g = Ghost(front);
    let mut i: usize = 0;
    let n = pieces.len();
    proof {
        assert(pvs.skip(0) =~= pvs);
    }
    while i < n
        invariant
            i <= n,
            n == pieces@.len(),
            pvs == pieces@.map_values(|p: String| p@),
            ents@.len() == front_g@.len(),
            forall|k: int|
                0 <= k < front_g@.len() ==> (#[trigger] ents@[k]).0@ == front_g@[k].0
                    && scalar_matches(ents@[k].1, front_g@[k].1),
            spec_parse_pair_pieces(pvs) == match spec_parse_pair_pieces(pvs.skip(i as int)) {
                Option::Some(t) => Option::Some(front_g@ + t),
                Option::None => Option::<Seq<(Seq<char>, ScalarV)>>::None,
            },
        decreases n - i,
    {
        proof {
            assert(pvs.skip(i as int)[0] == pvs[i as int]);
            assert(pvs.skip(i as int).skip(1) =~= pvs.skip(i as int + 1));
        }
        match parse_pair(pieces[i].as_str()) {
            Some(kv) => {
                let ghost m = spec_parse_pair(pvs[i as int])->0;
                ents.push(kv);
                proof {
                    front_g@ = front_g@.push(m);
                    assert(forall|t2: Seq<(Seq<char>, ScalarV)>|
                        front_g@ + t2 =~= (front_g@.drop_last() + (seq![m] + t2)));
                }
            },
            None => {
                return None;
            },
        }
        i += 1;
    }
    proof {
        assert(pvs.skip(n as int).len() == 0);
        assert(front_g@ + Seq::<(Seq<char>, ScalarV)>::empty() =~= front_g@);
    }
    Some(ents)
}

/// Reads one value: an array, an inline table, or a scalar.
fn parse_value(v: &str) -> (r: Option<crate::value::Item>)
    ensures
        match r {
            Some(it) => spec_parse_value(v@) matches Option::Some(m) && item_matches(it, m),
            None => spec_parse_value(v@) is None,
        },
{
    let len = v.unicode_len();
    if len >= 1 && v.get_char(0) == '[' {
        if len >= 2 && v.get_char(len - 1) == ']' {
            let inner = slice_of(v, 1, len - 1);
            let trimmed = trim_str(inner.as_str());
            if trimmed.as_str().unicode_len() == 0 {
                Some(crate::value::Item::Arr(Vec::new()))
            } else {
                let pieces = split_str(inner.as_str(), ',');
                match parse_pieces(&pieces) {
                    Some(items) => Some(crate::value::Item::Arr(items)),
                    None => None,
                }
            }
        } else {
            None
        }
    } else if len >= 1 && v.get_char(0) == '{' {
        if len >= 2 && v.get_char(len - 1) == '}' {
            let inner = slice_of(v, 1, len - 1);
            let trimmed = trim_str(inner.as_str());
            if trimmed.as_str().unicode_len() == 0 {
                Some(crate::value::Item::Table(Vec::new()))
            } else {
                let pieces = split_str(inner.as_str(), ',');
                match parse_pair_pieces(&pieces) {
                    Some(ents) => Some(crate::value::Item::Table(ents)),
                    None => None,
                }
            }
        } else {
            None
        }
    } else {
        match parse_scalar(v) {
            Some(it) => Some(it),
            None => None,
        }
    }
}

/// One classified line, carrying its parsed parts.
enum Line {
    Blank,
    Header(String),
    Binding(String, crate::value::Item),
    Bad,
}

/// A classified line holds what the line shape describes.
spec fn line_matches(l: Line, v: LineV) -> bool {
    match v {
        LineV::Blank => l is Blank,
        LineV::Header(name) => l matches Line::Header(s) && s@ == name,
        LineV::Binding(key, iv) => l matches Line::Binding(k, it) && k@ == key && item_matches(
            it,
            iv,
        ),
        LineV::Bad => l is Bad,
    }
}

/// Classifies one raw line of a descriptor file.
fn classify_line(line: &str) -> (r: Line)
    ensures
        line_matches(r, spec_classify(line@)),
{
    let t = trim_str(line);
    let ts = t.as_str();
    let tlen = ts.unicode_len();
    if tlen == 0 {
        Line::Blank
    } else if ts.get_char(0) == '#' {
        Line::Blank
    } else if ts.get_char(0) == '[' {
        if tlen >= 2 && ts.get_char(tlen - 1) == ']' {
            let inner = slice_of(ts, 1, tlen - 1);
            Line::Header(trim_str(inner.as_str()))
        } else {
            Line::Bad
        }
    } else {
        match find_char(ts, '=') {
            Some(e) => {
                let keyraw = slice_of(ts, 0, e);
                let key = trim_str(keyraw.as_str());
                let valraw = slice_of(ts, e + 1, tlen);
                let val = trim_str(valraw.as_str());
                proof {
                    assert(t@.subrange(0, e as int) =~= t@.take(e as int));
                    assert(t@.subrange(e as int + 1, t@.len() as int) =~= t@.skip(e as int + 1));
                }
                if key.as_str().unicode_len() >= 1 {
                    match parse_value(val.as_str()) {
                        Some(it) => Line::Binding(key, it),
                        None => Line::Bad,
                    }
                } else {
                    Line::Bad
                }
            },
            None => Line::Bad,
        }
    }
}

/// Reads a whole descriptor text into a document.  Returns the document
/// the grammar gives the text, and nothing on a text the grammar
/// rejects.
pub fn parse_document(text: &str) -> (r: Option<crate::value::Document>)
    ensures
        match r {
            Some(doc) => spec_parse_doc(text@) matches Option::Some(m) && doc_matches(doc, m),
            None => spec_parse_doc(text@) is None,
        },
{
    let lines = split_str(text, '\n');
    let ghost lvs = lines@.map_values(|p: String| p@);
    let mut sections: Vec<(String, Vec<(String, crate::value::Item)>)> = Vec::new();
    let ghost acc0: DocV = Seq::empty();
    let mut acc_g = Ghost(acc0);
    let mut i: usize = 0;
    let n = lines.len();
    proof {
        assert(lvs.skip(0) =~= lvs);
        assert(doc_matches(
            crate::value::Document { sections: sections },
            acc_g@,
        ));
    }
    while i < n
        invariant
            i <= n,
            n == lines@.len(),
            lvs == lines@.map_values(|p: String| p@),
            doc_matches(crate::value::Document { sections: sections }, acc_g@),
            spec_parse_doc(text@) == spec_parse_lines(lvs.skip(i as int), acc_g@),
        decreases n - i,
    {
        proof {
            assert(lvs.skip(i as int)[0] == lvs[i as int]);
            assert(lvs.skip(i as int).skip(1) =~= lvs.skip(i as int + 1));
        }
        match classify_line(lines[i].as_str()) {
            Line::Blank => {},
            Line::Header(name) => {
                let ghost nm = spec_classify(lvs[i as int])->Header_0;
                sections.push((name, Vec::new()));
                proof {
                    acc_g@ = acc_g@.push((nm, Seq::empty()));
                }
            },
            Line::Binding(key, it) => {
                if sections.len() == 0 {
                    return None;
                }
                let ghost kv = spec_classify(lvs[i as int])->Binding_0;
                let ghost iv = spec_classify(lvs[i as int])->Binding_1;
                let ghost presec = sections@;
                let mut last = match sections.pop() {
                    Some(sec) => sec,
                    None => {
                        return None;
                    },
                };
                last.1.push((key, it));
                sections.push(last);
                proof {
                    let j = acc_g@.len() - 1;
                    let newacc = acc_g@.update(j, (acc_g@.last().0, acc_g@.last().1.push((kv, iv))));
                    assert(sections@ =~= presec.update(
                        j,
                        (presec[j].0, sections@[j].1),
                    ));
                    acc_g@ = newacc;
                    assert forall|q: int| 0 <= q < acc_g@.len() implies (#[trigger] sections@[q]).0@
                        == acc_g@[q].0 && section_matches(sections@[q].1, acc_g@[q].1) by {
                        if q < j {
                            assert(sections@[q] == presec[q]);
                        }
                    }
                }
            },
            Line::Bad => {
                return None;
            },
        }
        i += 1;
    }
    proof {
        assert(lvs.skip(n as int).len() == 0);
    }
    Some(crate::value::Document { sections })
}

} // verus!
