use vstd::prelude::*;
use vstd::string::*;
use rand::Rng;
use crate::text::{decimal, decimal_u64};

verus! {

/// Draws a number below `bound`, uniformly at random, from the thread's
/// random number generator (`rand::thread_rng().gen_range(0..bound)`).
/// The result lies in `0..bound`; which one is left to chance.
#[verifier::external_body]
fn random_below(bound: usize) -> (r: usize)
    requires
        bound > 0,
    ensures
        r < bound,
{
    rand::thread_rng().gen_range(0..bound)
}

/// The levels of the made-up log rows.
pub open spec fn log_levels() -> Seq<Seq<char>> {
    seq!["error"@, "warn"@, "info"@]
}

/// The content of the made-up log row at position `i`.
pub open spec fn mock_content(i: nat) -> Seq<char> {
    "No. "@ + decimal(i + 100) + ", Grove St, Los Angeles"@
}

/// A made-up row of the log table.
#[derive(Debug, Clone, PartialEq, Eq)]
pub struct MockData {
    pub index: usize,
    pub date: String,
    pub info_levels: String,
    pub content: String,
}

/// The row of the log table at position `i` (counted from 0), of the level
/// at `level` in `log_levels()` and dated `date`.
pub fn mock_row(i: usize, level: usize, date: String) -> (r: MockData)
    requires
        level < 3,
        i + 100 <= usize::MAX,
    ensures
        r.index == i + 1,
        r.date == date,
        r.info_levels@ == log_levels()[level as int],
        r.content@ == mock_content(i as nat),
{
    proof {
        reveal_strlit("error");
        reveal_strlit("warn");
        reveal_strlit("info");
    }
    let info_levels = if level == 0 {
        "error".to_owned()
    } else if level == 1 {
        "warn".to_owned()
    } else {
        "info".to_owned()
    };
    let mut content = "No. ".to_owned();
    let number = decimal_u64((i + 100) as u64);
    content.append(number.as_str());
    content.append(", Grove St, Los Angeles");
    MockData { index: i + 1, date, info_levels, content }
}

/// A made-up log table of `count` rows: row `i` has index `i + 1`, date
/// `dates[i]`, a level picked at random, and content naming house number
/// `i + 100`.
pub fn generate_mock_data(count: usize, dates: &Vec<String>) -> (rows: Vec<MockData>)
    requires
        dates.len() == count,
        count + 100 <= usize::MAX,
    ensures
        rows.len() == count,
        forall|i: int|
            0 <= i < count ==> {
                &&& #[trigger] rows[i].index == i + 1
                &&& rows[i].date == dates[i]
                &&& log_levels().contains(rows[i].info_levels@)
                &&& rows[i].content@ == mock_content(i as nat)
            },
{
    let mut rows: Vec<MockData> = Vec::new();
    let mut i: usize = 0;
    while i < count
        invariant
            dates.len() == count,
            count + 100 <= usize::MAX,
            i <= count,
            rows.len() == i,
            forall|j: int|
                0 <= j < i ==> {
                    &&& #[trigger] rows[j].index == j + 1
                    &&& rows[j].date == dates[j]
                    &&& log_levels().contains(rows[j].info_levels@)
                    &&& rows[j].content@ == mock_content(j as nat)
                },
        decreases count - i,
    {
        let level = random_below(3);
        let row = mock_row(i, level, dates[i].clone());
        assert(log_levels()[level as int] == row.info_levels@);
        assert(log_levels().contains(row.info_levels@));
        rows.push(row);
        i += 1;
    }
    rows
}

} // verus!
