//! Secret resolution: a navigation query applied to a structured document.
//!
//! The query grammar covers dotted field access and bracketed array
//! indexing (`login.password`, `fields[0].value`). A query that does not fit
//! the grammar fails to compile; a compiled query that lands nowhere, or on
//! anything but a scalar string, fails extraction — only strings are valid
//! secrets.

use vstd::prelude::*;

use crate::json::{lookup_field, spec_lookup, JsonValue};

verus! {

pub open spec fn is_digit(c: char) -> bool {
    48 <= c as u32 <= 57
}

pub open spec fn is_ident_start(c: char) -> bool {
    (97 <= c as u32 <= 122) || (65 <= c as u32 <= 90) || c == '_'
}

pub open spec fn is_ident_char(c: char) -> bool {
    is_ident_start(c) || is_digit(c)
}

pub open spec fn digit_val(c: char) -> int {
    c as u32 - 48
}

fn is_digit_char(c: char) -> (b: bool)
    ensures
        b == is_digit(c),
{
    let u = c as u32;
    48 <= u && u <= 57
}

fn is_ident_start_char(c: char) -> (b: bool)
    ensures
        b == is_ident_start(c),
{
    let u = c as u32;
    (97 <= u && u <= 122) || (65 <= u && u <= 90) || c == '_'
}

fn is_ident_char_char(c: char) -> (b: bool)
    ensures
        b == is_ident_char(c),
{
    is_ident_start_char(c) || is_digit_char(c)
}

/// One step of a query: a field name followed by zero or more array
/// indices.
pub struct Segment {
    pub name: String,
    pub indices: Vec<u64>,
}

pub open spec fn idxs_model(v: Seq<u64>) -> Seq<int> {
    v.map_values(|x: u64| x as int)
}

pub open spec fn seg_model(s: Segment) -> (Seq<char>, Seq<int>) {
    (s.name@, idxs_model(s.indices@))
}

pub open spec fn segs_model(v: Seq<Segment>) -> Seq<(Seq<char>, Seq<int>)> {
    v.map_values(|s: Segment| seg_model(s))
}

/// The scanner's mode: at the start of a segment, inside a name, right
/// after `[`, inside digits, or right after `]`.
pub enum ScanMode {
    Start,
    Name,
    IdxOpen,
    IdxNum,
    IdxClose,
}

pub struct ScanState {
    pub mode: ScanMode,
    pub name: Seq<char>,
    pub indices: Seq<int>,
    pub val: int,
    pub acc: Seq<(Seq<char>, Seq<int>)>,
}

/// The largest index value whose next digit still fits comfortably; a
/// longer run of digits fails the grammar.
pub open spec fn max_index_step() -> int {
    99_999_999
}

/// The query grammar, as a character-by-character scan. `None` means the
/// text does not compile.
pub open spec fn spec_scan(s: Seq<char>, i: int, st: ScanState) -> Option<
    Seq<(Seq<char>, Seq<int>)>,
>
    decreases s.len() - i,
{
    if i < 0 || i >= s.len() {
        match st.mode {
            ScanMode::Name => Some(st.acc.push((st.name, st.indices))),
            ScanMode::IdxClose => Some(st.acc.push((st.name, st.indices))),
            _ => None,
        }
    } else {
        let c = s[i];
        match st.mode {
            ScanMode::Start => if is_ident_start(c) {
                spec_scan(
                    s,
                    i + 1,
                    ScanState {
                        mode: ScanMode::Name,
                        name: seq![c],
                        indices: Seq::empty(),
                        val: 0,
                        acc: st.acc,
                    },
                )
            } else {
                None
            },
            ScanMode::Name => if is_ident_char(c) {
                spec_scan(s, i + 1, ScanState { name: st.name.push(c), ..st })
            } else if c == '.' {
                spec_scan(
                    s,
                    i + 1,
                    ScanState {
                        mode: ScanMode::Start,
                        name: Seq::empty(),
                        indices: Seq::empty(),
                        val: 0,
                        acc: st.acc.push((st.name, st.indices)),
                    },
                )
            } else if c == '[' {
                spec_scan(s, i + 1, ScanState { mode: ScanMode::IdxOpen, val: 0, ..st })
            } else {
                None
            },
            ScanMode::IdxOpen => if is_digit(c) {
                spec_scan(s, i + 1, ScanState { mode: ScanMode::IdxNum, val: digit_val(c), ..st })
            } else {
                None
            },
            ScanMode::IdxNum => if is_digit(c) {
                if st.val <= max_index_step() {
                    spec_scan(s, i + 1, ScanState { val: st.val * 10 + digit_val(c), ..st })
                } else {
                    None
                }
            } else if c == ']' {
                spec_scan(
                    s,
                    i + 1,
                    ScanState {
                        mode: ScanMode::IdxClose,
                        indices: st.indices.push(st.val),
                        val: 0,
                        ..st
                    },
                )
            } else {
                None
            },
            ScanMode::IdxClose => if c == '.' {
                spec_scan(
                    s,
                    i + 1,
                    ScanState {
                        mode: ScanMode::Start,
                        name: Seq::empty(),
                        indices: Seq::empty(),
                        val: 0,
                        acc: st.acc.push((st.name, st.indices)),
                    },
                )
            } else if c == '[' {
                spec_scan(s, i + 1, ScanState { mode: ScanMode::IdxOpen, val: 0, ..st })
            } else {
                None
            },
        }
    }
}

pub open spec fn scan_start(acc: Seq<(Seq<char>, Seq<int>)>) -> ScanState {
    ScanState {
        mode: ScanMode::Start,
        name: Seq::empty(),
        indices: Seq::empty(),
        val: 0,
        acc,
    }
}

/// The compiled form of a query, when the text fits the grammar.
pub open spec fn spec_parse_query(q: Seq<char>) -> Option<Seq<(Seq<char>, Seq<int>)>> {
    spec_scan(q, 0, scan_start(Seq::empty()))
}

enum Mode {
    Start,
    Name,
    IdxOpen,
    IdxNum,
    IdxClose,
}

/// Compiles query text into segments; fails exactly when the text does not
/// fit the grammar.
pub fn parse_query(q: &str) -> (r: Option<Vec<Segment>>)
    ensures
        match r {
            Some(v) => spec_parse_query(q@) == Some(segs_model(v@)),
            None => spec_parse_query(q@) is None,
        },
{
    let n = q.unicode_len();
    let mut mode = Mode::Start;
    let mut name_start: usize = 0;
    let mut cur_name = String::new();
    let mut cur_idxs: Vec<u64> = Vec::new();
    let mut val: u64 = 0;
    let mut acc: Vec<Segment> = Vec::new();
    let mut i: usize = 0;
    proof {
        assert(segs_model(acc@) =~= Seq::<(Seq<char>, Seq<int>)>::empty());
    }
    while i < n
        invariant
            i <= n,
            n == q@.len(),
            match mode {
                Mode::Start => spec_scan(q@, i as int, scan_start(segs_model(acc@)))
                    == spec_parse_query(q@),
                Mode::Name => name_start < i && spec_scan(
                    q@,
                    i as int,
                    ScanState {
                        mode: ScanMode::Name,
                        name: q@.subrange(name_start as int, i as int),
                        indices: Seq::empty(),
                        val: 0,
                        acc: segs_model(acc@),
                    },
                ) == spec_parse_query(q@),
                Mode::IdxOpen => spec_scan(
                    q@,
                    i as int,
                    ScanState {
                        mode: ScanMode::IdxOpen,
                        name: cur_name@,
                        indices: idxs_model(cur_idxs@),
                        val: 0,
                        acc: segs_model(acc@),
                    },
                ) == spec_parse_query(q@),
                Mode::IdxNum => spec_scan(
                    q@,
                    i as int,
                    ScanState {
                        mode: ScanMode::IdxNum,
                        name: cur_name@,
                        indices: idxs_model(cur_idxs@),
                        val: val as int,
                        acc: segs_model(acc@),
                    },
                ) == spec_parse_query(q@),
                Mode::IdxClose => spec_scan(
                    q@,
                    i as int,
                    ScanState {
                        mode: ScanMode::IdxClose,
                        name: cur_name@,
                        indices: idxs_model(cur_idxs@),
                        val: 0,
                        acc: segs_model(acc@),
                    },
                ) == spec_parse_query(q@),
            },
        decreases n - i,
    {
        let c = q.get_char(i);
        match mode {
            Mode::Start => {
                if is_ident_start_char(c) {
                    proof {
                        assert(seq![q@[i as int]] =~= q@.subrange(i as int, i + 1));
                    }
                    mode = Mode::Name;
                    name_start = i;
                    i = i + 1;
                } else {
                    return None;
                }
            },
            Mode::Name => {
                if is_ident_char_char(c) {
                    proof {
                        assert(q@.subrange(name_start as int, i as int).push(q@[i as int])
                            =~= q@.subrange(name_start as int, i + 1));
                    }
                    i = i + 1;
                } else if c == '.' {
                    let piece = q.substring_char(name_start, i).to_owned();
                    let ghost before = segs_model(acc@);
                    let seg = Segment { name: piece, indices: Vec::new() };
                    proof {
                        assert(seg_model(seg)
                            == (q@.subrange(name_start as int, i as int), idxs_model(seg.indices@)));
                        assert(idxs_model(seg.indices@) =~= Seq::<int>::empty());
                    }
                    acc.push(seg);
                    proof {
                        assert(segs_model(acc@) =~= before.push(
                            (q@.subrange(name_start as int, i as int), Seq::<int>::empty()),
                        ));
                    }
                    mode = Mode::Start;
                    i = i + 1;
                } else if c == '[' {
                    cur_name = q.substring_char(name_start, i).to_owned();
                    cur_idxs = Vec::new();
                    proof {
                        assert(idxs_model(cur_idxs@) =~= Seq::<int>::empty());
                    }
                    mode = Mode::IdxOpen;
                    i = i + 1;
                } else {
                    return None;
                }
            },
            Mode::IdxOpen => {
                if is_digit_char(c) {
                    val = (c as u32 - 48) as u64;
                    mode = Mode::IdxNum;
                    i = i + 1;
                } else {
                    return None;
                }
            },
            Mode::IdxNum => {
                if is_digit_char(c) {
                    if val <= 99_999_999 {
                        val = val * 10 + (c as u32 - 48) as u64;
                        i = i + 1;
                    } else {
                        return None;
                    }
                } else if c == ']' {
                    let ghost before = idxs_model(cur_idxs@);
                    cur_idxs.push(val);
                    proof {
                        assert(idxs_model(cur_idxs@) =~= before.push(val as int));
                    }
                    val = 0;
                    mode = Mode::IdxClose;
                    i = i + 1;
                } else {
                    return None;
                }
            },
            Mode::IdxClose => {
                if c == '.' {
                    let ghost before = segs_model(acc@);
                    let ghost nm = cur_name@;
                    let ghost ix = idxs_model(cur_idxs@);
                    let seg = Segment { name: cur_name, indices: cur_idxs };
                    acc.push(seg);
                    proof {
                        assert(segs_model(acc@) =~= before.push((nm, ix)));
                    }
                    cur_name = String::new();
                    cur_idxs = Vec::new();
                    proof {
                        assert(idxs_model(cur_idxs@) =~= Seq::<int>::empty());
                    }
                    mode = Mode::Start;
                    i = i + 1;
                } else if c == '[' {
                    mode = Mode::IdxOpen;
                    i = i + 1;
                } else {
                    return None;
                }
            },
        }
    }
    match mode {
        Mode::Name => {
            let piece = q.substring_char(name_start, n).to_owned();
            let ghost before = segs_model(acc@);
            let seg = Segment { name: piece, indices: Vec::new() };
            proof {
                assert(idxs_model(seg.indices@) =~= Seq::<int>::empty());
            }
            acc.push(seg);
            proof {
                assert(segs_model(acc@) =~= before.push(
                    (q@.subrange(name_start as int, n as int), Seq::<int>::empty()),
                ));
            }
            Some(acc)
        },
        Mode::IdxClose => {
            let ghost before = segs_model(acc@);
            let ghost nm = cur_name@;
            let ghost ix = idxs_model(cur_idxs@);
            let seg = Segment { name: cur_name, indices: cur_idxs };
            acc.push(seg);
            proof {
                assert(segs_model(acc@) =~= before.push((nm, ix)));
            }
            Some(acc)
        },
        _ => None,
    }
}

/// Array indexing; anything out of range is absent.
pub open spec fn spec_index(items: Seq<JsonValue>, i: int) -> Option<JsonValue> {
    if 0 <= i < items.len() {
        Some(items[i])
    } else {
        None
    }
}

/// A run of indices applied to a value; indexing anything but an array is
/// absent.
pub open spec fn spec_apply_indices(v: JsonValue, idxs: Seq<int>) -> Option<JsonValue>
    decreases idxs.len(),
{
    if idxs.len() == 0 {
        Some(v)
    } else {
        match v {
            JsonValue::Array(items) => match spec_index(items@, idxs[0]) {
                Some(w) => spec_apply_indices(w, idxs.drop_first()),
                None => None,
            },
            _ => None,
        }
    }
}

/// One segment applied: field access on an object, then the indices; field
/// access on anything but an object is absent.
pub open spec fn spec_apply_segment(v: JsonValue, seg: (Seq<char>, Seq<int>)) -> Option<
    JsonValue,
> {
    match v {
        JsonValue::Object(pairs) => match spec_lookup(pairs@, seg.0) {
            Some(w) => spec_apply_indices(w, seg.1),
            None => None,
        },
        _ => None,
    }
}

/// A whole compiled query applied to a document.
pub open spec fn spec_navigate(v: JsonValue, segs: Seq<(Seq<char>, Seq<int>)>) -> Option<
    JsonValue,
>
    decreases segs.len(),
{
    if segs.len() == 0 {
        Some(v)
    } else {
        match spec_apply_segment(v, segs[0]) {
            Some(w) => spec_navigate(w, segs.drop_first()),
            None => None,
        }
    }
}

fn apply_indices<'a>(v: &'a JsonValue, idxs: &Vec<u64>) -> (r: Option<&'a JsonValue>)
    ensures
        match r {
            Some(w) => spec_apply_indices(*v, idxs_model(idxs@)) == Some(*w),
            None => spec_apply_indices(*v, idxs_model(idxs@)) is None,
        },
{
    let mut cur: &'a JsonValue = v;
    let mut k: usize = 0;
    proof {
        assert(idxs_model(idxs@).skip(0) =~= idxs_model(idxs@));
    }
    while k < idxs.len()
        invariant
            k <= idxs.len(),
            spec_apply_indices(*cur, idxs_model(idxs@).skip(k as int)) == spec_apply_indices(
                *v,
                idxs_model(idxs@),
            ),
        decreases idxs.len() - k,
    {
        let ghost rest = idxs_model(idxs@).skip(k as int);
        proof {
            assert(rest[0] == idxs@[k as int] as int);
            assert(rest.drop_first() =~= idxs_model(idxs@).skip(k + 1));
        }
        match cur {
            JsonValue::Array(items) => {
                let ix = idxs[k];
                if ix < items.len() as u64 {
                    cur = &items[ix as usize];
                    k = k + 1;
                } else {
                    return None;
                }
            },
            _ => {
                return None;
            },
        }
    }
    proof {
        assert(idxs_model(idxs@).skip(idxs@.len() as int).len() == 0);
    }
    Some(cur)
}

/// Navigates the document along a compiled query.
pub fn navigate<'a>(doc: &'a JsonValue, segs: &Vec<Segment>) -> (r: Option<&'a JsonValue>)
    ensures
        match r {
            Some(w) => spec_navigate(*doc, segs_model(segs@)) == Some(*w),
            None => spec_navigate(*doc, segs_model(segs@)) is None,
        },
{
    let mut cur: &'a JsonValue = doc;
    let mut k: usize = 0;
    proof {
        assert(segs_model(segs@).skip(0) =~= segs_model(segs@));
    }
    while k < segs.len()
        invariant
            k <= segs.len(),
            spec_navigate(*cur, segs_model(segs@).skip(k as int)) == spec_navigate(
                *doc,
                segs_model(segs@),
            ),
        decreases segs.len() - k,
    {
        let ghost rest = segs_model(segs@).skip(k as int);
        proof {
            assert(rest[0] == seg_model(segs@[k as int]));
            assert(rest.drop_first() =~= segs_model(segs@).skip(k + 1));
        }
        let seg = &segs[k];
        match cur {
            JsonValue::Object(pairs) => {
                match lookup_field(pairs, &seg.name) {
                    Some(w) => {
                        match apply_indices(w, &seg.indices) {
                            Some(x) => {
                                cur = x;
                                k = k + 1;
                            },
                            None => {
                                return None;
                            },
                        }
                    },
                    None => {
                        return None;
                    },
                }
            },
            _ => {
                return None;
            },
        }
    }
    proof {
        assert(segs_model(segs@).skip(segs@.len() as int).len() == 0);
    }
    Some(cur)
}

/// Why resolution failed.
#[derive(PartialEq, Eq, Structural, Debug)]
pub enum ResolveError {
    /// The query text does not fit the grammar.
    Query,
    /// The query lands nowhere, or on a value that is not a scalar string.
    Extraction,
}

/// The whole resolution rule: compile, navigate, and accept only a scalar
/// string.
pub open spec fn spec_resolve(doc: JsonValue, q: Seq<char>) -> Result<Seq<char>, ResolveError> {
    match spec_parse_query(q) {
        None => Err(ResolveError::Query),
        Some(segs) => match spec_navigate(doc, segs) {
            Some(v) => match v {
                JsonValue::Str(s) => Ok(s@),
                _ => Err(ResolveError::Extraction),
            },
            None => Err(ResolveError::Extraction),
        },
    }
}

/// Extracts the scalar string a query addresses in a document.
pub fn resolve(document: &JsonValue, query: &str) -> (r: Result<String, ResolveError>)
    ensures
        match r {
            Ok(s) => spec_resolve(*document, query@) == Ok::<Seq<char>, ResolveError>(s@),
            Err(e) => spec_resolve(*document, query@) == Err::<Seq<char>, ResolveError>(e),
        },
{
    let segs = match parse_query(query) {
        Some(segs) => segs,
        None => {
            return Err(ResolveError::Query);
        },
    };
    match navigate(document, &segs) {
        Some(v) => match v {
            JsonValue::Str(s) => Ok(s.clone()),
            _ => Err(ResolveError::Extraction),
        },
        None => Err(ResolveError::Extraction),
    }
}

} // verus!
