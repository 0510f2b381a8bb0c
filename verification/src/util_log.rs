use vstd::prelude::*;
use vstd::string::*;
use crate::dict::{Dict, map_of, distinct_keys, lemma_map_of_map_values};
use crate::json::{Reply, Scalar, text_object, text_fields, fields_view, push_text};
use crate::text::chars_of;

verus! {

/// `pat` occurs in `s` at position `i`.
pub open spec fn occurs_at(s: Seq<char>, i: int, pat: Seq<char>) -> bool {
    0 <= i && i + pat.len() <= s.len() && s.subrange(i, i + pat.len()) == pat
}

/// The separator between the bracketed head and the key: `] - `.
pub open spec fn head_end() -> Seq<char> {
    seq![']', ' ', '-', ' ']
}

/// The separator between key and value: `: `.
pub open spec fn key_end() -> Seq<char> {
    seq![':', ' ']
}

/// `(p, q, l)` cuts the line `s` into `[time level] - key: rest`: the space
/// at `p` ends the time, the `] - ` at `q` ends the level and the `: ` at
/// `l` ends the key.
pub open spec fn is_cut(s: Seq<char>, p: int, q: int, l: int) -> bool {
    &&& s.len() > 0
    &&& s[0] == '['
    &&& 1 <= p < s.len()
    &&& s[p] == ' '
    &&& p + 1 <= q
    &&& occurs_at(s, q, head_end())
    &&& q + 4 <= l
    &&& occurs_at(s, l, key_end())
}

/// The line has no line break, which none of the line's parts may hold.
pub open spec fn single_line(s: Seq<char>) -> bool {
    forall|i: int| 0 <= i < s.len() ==> s[i] != '\n'
}

/// The line has the shape of a report line.
pub open spec fn is_report_line(s: Seq<char>) -> bool {
    single_line(s) && exists|p: int, q: int, l: int| is_cut(s, p, q, l)
}

/// `(p, q, l)` is the cut that greedy matching picks: the longest time,
/// then the longest level, then the longest key.
pub open spec fn is_chosen_cut(s: Seq<char>, p: int, q: int, l: int) -> bool {
    &&& is_cut(s, p, q, l)
    &&& forall|p2: int, q2: int, l2: int|
        #![trigger is_cut(s, p2, q2, l2)]
        is_cut(s, p2, q2, l2) ==> (p2 < p || (p2 == p && (q2 < q || (q2 == q && l2 <= l))))
}

/// The value carried by the text after `: `: one leading and one trailing
/// double quote, where present, are not part of it.
pub open spec fn value_text(u: Seq<char>) -> Seq<char> {
    let t = if u.len() > 0 && u[0] == '"' {
        u.drop_first()
    } else {
        u
    };
    if t.len() > 0 && t.last() == '"' {
        t.drop_last()
    } else {
        t
    }
}

/// One line of the utility's report, `[<time> <level>] - <key>: <value>`.
#[derive(Debug, Clone, PartialEq, Eq)]
pub struct ReportLine {
    pub time: String,
    pub level: String,
    pub key: String,
    pub val: String,
}

/// The parts of line `s` under cut `(p, q, l)`.
pub open spec fn parts_match(r: ReportLine, s: Seq<char>, p: int, q: int, l: int) -> bool {
    &&& r.time@ == s.subrange(1, p)
    &&& r.level@ == s.subrange(p + 1, q)
    &&& r.key@ == s.subrange(q + 4, l)
    &&& r.val@ == value_text(s.subrange(l + 2, s.len() as int))
}

fn occurs_in(cs: &Vec<char>, i: usize, pat: &Vec<char>) -> (b: bool)
    ensures
        b == occurs_at(cs@, i as int, pat@),
{
    if i > cs.len() || pat.len() > cs.len() - i {
        return false;
    }
    let mut j: usize = 0;
    while j < pat.len()
        invariant
            i + pat@.len() <= cs@.len(),
            cs@.len() <= usize::MAX,
            j <= pat@.len(),
            forall|k: int| 0 <= k < j ==> cs@[i + k] == pat@[k],
        decreases pat@.len() - j,
    {
        let at: usize = i + j;
        if cs[at] != pat[j] {
            assert(cs@.subrange(i as int, i + pat@.len())[j as int] != pat@[j as int]);
            return false;
        }
        j += 1;
    }
    assert(cs@.subrange(i as int, i + pat@.len()) =~= pat@);
    true
}

/// The last position in `lower..=upper` where `pat` occurs.
fn last_occurrence(cs: &Vec<char>, pat: &Vec<char>, lower: usize, upper: usize) -> (r: Option<usize>)
    ensures
        r is Some ==> lower <= r->0 <= upper && occurs_at(cs@, r->0 as int, pat@)
            && forall|j: int| r->0 < j <= upper ==> !occurs_at(cs@, j, pat@),
        r is None ==> forall|j: int| lower <= j <= upper ==> !occurs_at(cs@, j, pat@),
{
    if upper < lower {
        return None;
    }
    let mut i: usize = upper;
    loop
        invariant
            lower <= i <= upper,
            forall|j: int| i < j <= upper ==> !occurs_at(cs@, j, pat@),
        decreases i,
    {
        if occurs_in(cs, i, pat) {
            return Some(i);
        }
        if i == lower {
            return None;
        }
        i -= 1;
    }
}

fn has_line_break(cs: &Vec<char>) -> (b: bool)
    ensures
        b == !single_line(cs@),
{
    let mut i: usize = 0;
    while i < cs.len()
        invariant
            i <= cs@.len(),
            forall|k: int| 0 <= k < i ==> cs@[k] != '\n',
        decreases cs@.len() - i,
    {
        if cs[i] == '\n' {
            return true;
        }
        i += 1;
    }
    false
}

/// Reads one line of the utility's report. A line that does not have the
/// report shape gives `None`; otherwise its parts come from the cut that
/// greedy matching picks.
pub fn parse_report_line(line: &str) -> (r: Option<ReportLine>)
    ensures
        r is Some <==> is_report_line(line@),
        r is Some ==> exists|p: int, q: int, l: int|
            is_chosen_cut(line@, p, q, l) && parts_match(r->0, line@, p, q, l),
{
    let cs = chars_of(line);
    let ghost s = cs@;
    let n = cs.len();
    if has_line_break(&cs) || n == 0 || cs[0] != '[' {
        return None;
    }
    let colon: Vec<char> = vec![':', ' '];
    let close: Vec<char> = vec![']', ' ', '-', ' '];
    let space: Vec<char> = vec![' '];
    assert(colon@ == key_end());
    assert(close@ == head_end());
    assert(space@ =~= seq![' ']);
    if n < 2 {
        assert forall|p: int, q: int, l: int| !is_cut(s, p, q, l) by {}
        return None;
    }
    let l = match last_occurrence(&cs, &colon, 0, n - 2) {
        Some(l) => l,
        None => {
            assert forall|p: int, q: int, l: int| !is_cut(s, p, q, l) by {}
            return None;
        },
    };
    if l < 4 {
        assert forall|p: int, q: int, l2: int| !is_cut(s, p, q, l2) by {
            if is_cut(s, p, q, l2) {
                assert(l2 <= l);
            }
        }
        return None;
    }
    let q = match last_occurrence(&cs, &close, 0, l - 4) {
        Some(q) => q,
        None => {
            assert forall|p: int, q: int, l2: int| !is_cut(s, p, q, l2) by {
                if is_cut(s, p, q, l2) {
                    assert(l2 <= l);
                }
            }
            return None;
        },
    };
    if q < 2 {
        assert forall|p: int, q2: int, l2: int| !is_cut(s, p, q2, l2) by {
            if is_cut(s, p, q2, l2) {
                assert(l2 <= l);
                assert(q2 <= q);
            }
        }
        return None;
    }
    let p = match last_occurrence(&cs, &space, 1, q - 1) {
        Some(p) => p,
        None => {
            assert forall|p: int, q2: int, l2: int| !is_cut(s, p, q2, l2) by {
                if is_cut(s, p, q2, l2) {
                    assert(l2 <= l);
                    assert(q2 <= q);
                    assert(s.subrange(p, p + 1) =~= seq![s[p]]);
                    assert(occurs_at(s, p, space@));
                }
            }
            return None;
        },
    };
    proof {
        assert(s.subrange(p as int, p + 1)[0] == ' ');
        assert(is_cut(s, p as int, q as int, l as int));
        assert forall|p2: int, q2: int, l2: int| is_cut(s, p2, q2, l2) implies (p2 < p || (p2 == p
            && (q2 < q || (q2 == q && l2 <= l)))) by {
            assert(l2 <= l);
            assert(q2 <= q);
            assert(s.subrange(p2, p2 + 1) =~= seq![s[p2]]);
            assert(occurs_at(s, p2, space@));
            assert(p2 <= p);
        }
    }
    let mut vs: usize = l + 2;
    let mut ve: usize = n;
    if vs < ve && cs[vs] == '"' {
        vs = vs + 1;
    }
    if vs < ve && cs[ve - 1] == '"' {
        ve = ve - 1;
    }
    proof {
        let u = s.subrange(l + 2, n as int);
        let t = if u.len() > 0 && u[0] == '"' {
            u.drop_first()
        } else {
            u
        };
        assert(t =~= s.subrange(vs as int, n as int));
        assert(value_text(u) =~= s.subrange(vs as int, ve as int));
    }
    let r = ReportLine {
        time: line.substring_char(1, p).to_owned(),
        level: line.substring_char(p + 1, q).to_owned(),
        key: line.substring_char(q + 4, l).to_owned(),
        val: line.substring_char(vs, ve).to_owned(),
    };
    assert(parts_match(r, s, p as int, q as int, l as int));
    assert(is_chosen_cut(s, p as int, q as int, l as int));
    Some(r)
}

/// The cut that greedy matching picks is unique.
proof fn lemma_chosen_cut_unique(s: Seq<char>, p: int, q: int, l: int, p2: int, q2: int, l2: int)
    requires
        is_chosen_cut(s, p, q, l),
        is_chosen_cut(s, p2, q2, l2),
    ensures
        p == p2 && q == q2 && l == l2,
{
    assert(is_cut(s, p2, q2, l2));
    assert(is_cut(s, p, q, l));
}

/// The key and value that a line of the utility's report gives, if it has
/// the report shape.
pub open spec fn report_entry(s: Seq<char>) -> Option<(Seq<char>, Seq<char>)> {
    if is_report_line(s) {
        let (p, q, l) = choose|p: int, q: int, l: int| is_chosen_cut(s, p, q, l);
        Some((s.subrange(q + 4, l), value_text(s.subrange(l + 2, s.len() as int))))
    } else {
        None
    }
}

/// The report that the lines `lines` make: each report line stores its
/// value under its key, a later line replacing what an earlier one stored;
/// other lines change nothing.
pub open spec fn report_of(lines: Seq<Seq<char>>) -> Map<Seq<char>, Seq<char>>
    decreases lines.len(),
{
    if lines.len() == 0 {
        Map::empty()
    } else {
        let m = report_of(lines.drop_last());
        match report_entry(lines.last()) {
            Some(e) => m.insert(e.0, e.1),
            None => m,
        }
    }
}

/// The parse of a report line agrees with `report_entry`.
proof fn lemma_parse_is_entry(s: Seq<char>, r: ReportLine)
    requires
        is_report_line(s),
        exists|p: int, q: int, l: int| is_chosen_cut(s, p, q, l) && parts_match(r, s, p, q, l),
    ensures
        report_entry(s) == Some((r.key@, r.val@)),
{
    let (p, q, l) = choose|p: int, q: int, l: int| is_chosen_cut(s, p, q, l) && parts_match(r, s, p, q, l);
    let (p2, q2, l2) = choose|p: int, q: int, l: int| is_chosen_cut(s, p, q, l);
    lemma_chosen_cut_unique(s, p, q, l, p2, q2, l2);
}

/// `pat` occurs nowhere in `s`.
pub open spec fn free_of(s: Seq<char>, pat: Seq<char>) -> bool {
    forall|i: int| !occurs_at(s, i, pat)
}

/// The report line `[<time> <level>] - <key>: "<val>"`.
pub open spec fn report_line_text(time: Seq<char>, level: Seq<char>, key: Seq<char>, val: Seq<char>) -> Seq<char> {
    seq!['['] + time + seq![' '] + level + head_end() + key + key_end() + seq!['"'] + val + seq!['"']
}

proof fn lemma_occurs_in_part(s: Seq<char>, a: int, b: int, i: int, pat: Seq<char>)
    requires
        0 <= a <= i,
        i + pat.len() <= b <= s.len(),
        occurs_at(s, i, pat),
    ensures
        occurs_at(s.subrange(a, b), i - a, pat),
{
    assert(s.subrange(a, b).subrange(i - a, i - a + pat.len()) =~= s.subrange(i, i + pat.len()));
}

/// `s` is laid out as `[<time> <level>] - <key>: "<val>"`.
spec fn laid_out(s: Seq<char>, time: Seq<char>, level: Seq<char>, key: Seq<char>, val: Seq<char>) -> bool {
    let p0 = 1 + time.len() as int;
    let q0 = p0 + 1 + level.len();
    let l0 = q0 + 4 + key.len();
    let n = l0 + 4 + val.len();
    &&& s.len() == n
    &&& s[0] == '['
    &&& s.subrange(1, p0) == time
    &&& s[p0] == ' '
    &&& s.subrange(p0 + 1, q0) == level
    &&& s.subrange(q0, q0 + 4) == head_end()
    &&& s.subrange(q0 + 4, l0) == key
    &&& s.subrange(l0, l0 + 2) == key_end()
    &&& s[l0 + 2] == '"'
    &&& s.subrange(l0 + 3, n - 1) == val
    &&& s[n - 1] == '"'
}

proof fn lemma_report_line_layout(time: Seq<char>, level: Seq<char>, key: Seq<char>, val: Seq<char>)
    ensures
        laid_out(report_line_text(time, level, key, val), time, level, key, val),
{
    let s = report_line_text(time, level, key, val);
    let p0: int = 1 + time.len() as int;
    let q0: int = p0 + 1 + level.len();
    let l0: int = q0 + 4 + key.len();
    let n: int = l0 + 4 + val.len();
    assert(s.subrange(1, p0) =~= time);
    assert(s.subrange(p0 + 1, q0) =~= level);
    assert(s.subrange(q0, q0 + 4) =~= head_end());
    assert(s.subrange(q0 + 4, l0) =~= key);
    assert(s.subrange(l0, l0 + 2) =~= key_end());
    assert(s.subrange(l0 + 3, n - 1) =~= val);
}

proof fn lemma_laid_out_single_line(s: Seq<char>, time: Seq<char>, level: Seq<char>, key: Seq<char>, val: Seq<char>)
    requires
        laid_out(s, time, level, key, val),
        single_line(time),
        single_line(level),
        single_line(key),
        single_line(val),
    ensures
        single_line(s),
{
    let p0: int = 1 + time.len() as int;
    let q0: int = p0 + 1 + level.len();
    let l0: int = q0 + 4 + key.len();
    let n: int = l0 + 4 + val.len();
    assert forall|i: int| 0 <= i < s.len() implies s[i] != '\n' by {
        if 1 <= i < p0 {
            assert(s[i] == s.subrange(1, p0)[i - 1]);
        } else if p0 + 1 <= i < q0 {
            assert(s[i] == s.subrange(p0 + 1, q0)[i - p0 - 1]);
        } else if q0 <= i < q0 + 4 {
            assert(s[i] == s.subrange(q0, q0 + 4)[i - q0]);
        } else if q0 + 4 <= i < l0 {
            assert(s[i] == s.subrange(q0 + 4, l0)[i - q0 - 4]);
        } else if l0 <= i < l0 + 2 {
            assert(s[i] == s.subrange(l0, l0 + 2)[i - l0]);
        } else if l0 + 3 <= i < n - 1 {
            assert(s[i] == s.subrange(l0 + 3, n - 1)[i - l0 - 3]);
        }
    }
}

proof fn lemma_laid_out_cut_is_chosen(s: Seq<char>, time: Seq<char>, level: Seq<char>, key: Seq<char>, val: Seq<char>)
    requires
        laid_out(s, time, level, key, val),
        !level.contains(' '),
        free_of(key, head_end()),
        free_of(val, key_end()),
    ensures
        is_chosen_cut(
            s,
            1 + time.len() as int,
            2 + time.len() + level.len() as int,
            6 + time.len() + level.len() + key.len() as int,
        ),
{
    let p0: int = 1 + time.len() as int;
    let q0: int = p0 + 1 + level.len();
    let l0: int = q0 + 4 + key.len();
    let n: int = l0 + 4 + val.len();
    assert(is_cut(s, p0, q0, l0));
    assert forall|p2: int, q2: int, l2: int| #[trigger] is_cut(s, p2, q2, l2) implies (p2 < p0 || (p2 == p0 && (
    q2 < q0 || (q2 == q0 && l2 <= l0)))) by {
        // The key ends at the last `: `.
        assert(s.subrange(l2, l2 + 2)[0] == s[l2]);
        assert(s.subrange(l2, l2 + 2)[1] == s[l2 + 1]);
        if l2 > l0 {
            if l2 == l0 + 1 {
                assert(s[l0 + 1] == s.subrange(l0, l0 + 2)[1]);
            } else if l0 + 3 <= l2 && l2 + 2 <= n - 1 {
                lemma_occurs_in_part(s, l0 + 3, n - 1, l2, key_end());
                assert(!occurs_at(val, l2 - (l0 + 3), key_end()));
            }
            assert(false);
        }
        // The level ends at the last `] - ` before it.
        assert(s.subrange(q2, q2 + 4)[0] == s[q2]);
        if q2 > q0 {
            if q0 + 4 <= q2 {
                lemma_occurs_in_part(s, q0 + 4, l0, q2, head_end());
                assert(!occurs_at(key, q2 - (q0 + 4), head_end()));
            } else {
                assert(s[q2] == s.subrange(q0, q0 + 4)[q2 - q0]);
            }
            assert(false);
        }
        // The time ends at the last space before that.
        if p2 > p0 {
            assert(s[p2] == s.subrange(p0 + 1, q0)[p2 - p0 - 1]);
            assert(level[p2 - p0 - 1] == ' ');
            assert(false);
        }
    }
}

/// A report line written from its parts reads back as those parts, as long
/// as the level has no space, the key holds no `] - ` and the value no
/// `: `, and no part breaks the line.
pub proof fn lemma_report_line_round_trip(time: Seq<char>, level: Seq<char>, key: Seq<char>, val: Seq<char>)
    requires
        single_line(time),
        single_line(level),
        single_line(key),
        single_line(val),
        !level.contains(' '),
        free_of(key, head_end()),
        free_of(val, key_end()),
    ensures
        is_report_line(report_line_text(time, level, key, val)),
        is_chosen_cut(
            report_line_text(time, level, key, val),
            1 + time.len() as int,
            2 + time.len() + level.len() as int,
            6 + time.len() + level.len() + key.len() as int,
        ),
        report_entry(report_line_text(time, level, key, val)) == Some((key, val)),
{
    let s = report_line_text(time, level, key, val);
    let p0: int = 1 + time.len() as int;
    let q0: int = p0 + 1 + level.len();
    let l0: int = q0 + 4 + key.len();
    let n: int = l0 + 4 + val.len();
    lemma_report_line_layout(time, level, key, val);
    lemma_laid_out_single_line(s, time, level, key, val);
    lemma_laid_out_cut_is_chosen(s, time, level, key, val);
    assert(is_cut(s, p0, q0, l0));
    let (p, q, l) = choose|p: int, q: int, l: int| is_chosen_cut(s, p, q, l);
    lemma_chosen_cut_unique(s, p, q, l, p0, q0, l0);
    let u = s.subrange(l0 + 2, n);
    assert(u =~= seq!['"'] + val + seq!['"']) by {
        assert forall|i: int| 0 <= i < u.len() implies u[i] == (seq!['"'] + val + seq!['"'])[i] by {
            if 1 <= i < u.len() - 1 {
                assert(u[i] == s.subrange(l0 + 3, n - 1)[i - 1]);
            }
        }
    }
    assert(u.drop_first() =~= val.push('"'));
    assert(val.push('"').drop_last() =~= val);
}

/// A line written in the report format leaves its value under its key in
/// the report, whatever lines came before it.
pub proof fn lemma_report_keeps_written_value(
    lines: Seq<Seq<char>>,
    time: Seq<char>,
    level: Seq<char>,
    key: Seq<char>,
    val: Seq<char>,
)
    requires
        single_line(time),
        single_line(level),
        single_line(key),
        single_line(val),
        !level.contains(' '),
        free_of(key, head_end()),
        free_of(val, key_end()),
    ensures
        report_of(lines.push(report_line_text(time, level, key, val))).dom().contains(key),
        report_of(lines.push(report_line_text(time, level, key, val)))[key] == val,
{
    lemma_report_line_round_trip(time, level, key, val);
    let all = lines.push(report_line_text(time, level, key, val));
    assert(all.drop_last() =~= lines);
}

/// The key/value report that the lidar utility writes, one line at a time.
pub struct UtilReport {
    fields: Dict<String>,
}

impl View for UtilReport {
    type V = Map<Seq<char>, Seq<char>>;

    closed spec fn view(&self) -> Map<Seq<char>, Seq<char>> {
        self.fields.map().map_values(|v: String| v@)
    }
}

impl UtilReport {
    /// The report's fields, in the order in which their keys first came.
    pub closed spec fn fields(&self) -> Seq<(Seq<char>, Seq<char>)> {
        self.fields.seq().map_values(|e: (Seq<char>, String)| (e.0, e.1@))
    }

    /// An empty report: no key, and no field in its reply.
    pub fn new() -> (r: Self)
        ensures
            r@ == Map::<Seq<char>, Seq<char>>::empty(),
            r.fields() == Seq::<(Seq<char>, Seq<char>)>::empty(),
    {
        let r = UtilReport { fields: Dict::new() };
        assert(r@ =~= Map::<Seq<char>, Seq<char>>::empty());
        assert(r.fields() =~= Seq::<(Seq<char>, Seq<char>)>::empty());
        r
    }

    /// Takes in one line of the utility's output: a report line stores its
    /// value under its key, any other line is passed over.
    pub fn absorb_line(&mut self, line: &str)
        ensures
            final(self)@ == match report_entry(line@) {
                Some(e) => old(self)@.insert(e.0, e.1),
                None => old(self)@,
            },
    {
        match parse_report_line(line) {
            Some(r) => {
                proof {
                    lemma_parse_is_entry(line@, r);
                }
                let ghost k = r.key@;
                let ghost v = r.val@;
                self.fields.insert(r.key, r.val);
                assert(self@ =~= old(self)@.insert(k, v));
            },
            None => {},
        }
    }

    /// The report that the lines `lines` make.
    pub fn from_lines(lines: &Vec<String>) -> (r: Self)
        ensures
            r@ == report_of(lines@.map_values(|s: String| s@)),
    {
        let ghost ls = lines@.map_values(|s: String| s@);
        let mut r = UtilReport::new();
        let n = lines.len();
        let mut i: usize = 0;
        while i < n
            invariant
                n == lines@.len(),
                ls == lines@.map_values(|s: String| s@),
                i <= n,
                r@ == report_of(ls.take(i as int)),
            decreases n - i,
        {
            r.absorb_line(lines[i].as_str());
            i += 1;
            assert(ls.take(i as int).drop_last() =~= ls.take(i - 1));
        }
        assert(ls.take(n as int) =~= ls);
        r
    }

    /// The reply that carries the report: one text field per key, with the
    /// value stored under it.
    pub fn to_reply(&self) -> (r: Reply)
        ensures
            r@ == text_object(self.fields()),
            distinct_keys(self.fields()),
            map_of(self.fields()) == self@,
    {
        let n = self.fields.len();
        let mut fs: Vec<(String, Scalar)> = Vec::new();
        let mut i: usize = 0;
        while i < n
            invariant
                n == self.fields().len(),
                i <= n,
                fields_view(fs@) =~= text_fields(self.fields().take(i as int)),
            decreases n - i,
        {
            let (k, v) = self.fields.entry(i);
            push_text(&mut fs, k.as_str(), v.as_str());
            i += 1;
            assert(self.fields().take(i as int).drop_last() =~= self.fields().take(i - 1));
        }
        assert(self.fields().take(n as int) =~= self.fields());
        proof {
            let f = |v: String| v@;
            lemma_map_of_map_values(self.fields.seq(), f);
            assert(self.fields() =~= self.fields.seq().map_values(
                |e: (Seq<char>, String)| (e.0, f(e.1)),
            ));
            assert(self@ =~= self.fields.map().map_values(f));
        }
        Reply::Object(fs)
    }
}

} // verus!
