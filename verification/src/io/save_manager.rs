//! The game calendar kept in a save's `storage.json`.
use vstd::prelude::*;

verus! {

/// What `serde_json` reads from the JSON text `text` under the top-level
/// key `key`: `None` when the text is not JSON, `Some(None)` when the key
/// is absent or does not hold an unsigned integer that fits in a `u64`,
/// and `Some(Some(v))` when it holds `v`.
pub uninterp spec fn json_field_u64(text: Seq<char>, key: Seq<char>) -> Option<Option<u64>>;

/// `serde_json::from_str::<serde_json::Value>`, then `Value::get` and
/// `Value::as_u64` on the parsed value: the unsigned integer stored under
/// the top-level key `key` of the JSON text `text` (see `json_field_u64`).
#[verifier::external_body]
fn top_level_u64(text: &str, key: &str) -> (r: Option<Option<u64>>)
    ensures
        r == json_field_u64(text@, key@),
{
    serde_json::from_str::<serde_json::Value>(text).ok().map(|v| v.get(key).and_then(|x| x.as_u64()))
}

/// The game calendar: the global turn, the year, the month (1 to 12) and
/// whether the turn falls in the second half of the month. A year has 24
/// turns, two per month.
#[derive(Debug, Clone, Copy, PartialEq, Eq, Structural)]
pub struct Calendar {
    /// Global turn counter.
    pub global_turn: u32,
    /// Current year.
    pub current_year: u32,
    /// Current month, 1 to 12.
    pub current_month: u32,
    /// Whether the turn is the second of its month.
    pub half_month: bool,
}

/// The calendar at `turn` of `year`: turn 1 is the first half of January,
/// turn 2 its second half, turn 3 the first half of February, and so on,
/// round the 24 turns of a year; turn 0 counts as the first half of
/// January.
pub open spec fn calendar_of(turn: u32, year: u32) -> Calendar {
    Calendar {
        global_turn: turn,
        current_year: year,
        current_month: if turn > 0 { (((turn - 1) % 24) / 2 + 1) as u32 } else { 1 },
        half_month: turn > 0 && (turn - 1) % 2 == 1,
    }
}

/// The calendar at `turn` of `year` (see `calendar_of`).
pub fn calendar_at(turn: u32, year: u32) -> (r: Calendar)
    ensures
        r == calendar_of(turn, year),
{
    let current_month: u32 = if turn > 0 { ((turn - 1) % 24) / 2 + 1 } else { 1 };
    let half_month = turn > 0 && (turn - 1) % 2 == 1;
    Calendar { global_turn: turn, current_year: year, current_month, half_month }
}

/// The calendar stored as a turn and a year: a missing turn counts as 0
/// and a missing year as 1900; a stored value wider than 32 bits keeps its
/// low 32 bits.
pub open spec fn calendar_from(turn: Option<u64>, year: Option<u64>) -> Calendar {
    calendar_of(
        match turn { Some(v) => v as u32, None => 0u32 },
        match year { Some(v) => v as u32, None => 1900u32 },
    )
}

/// The calendar from a stored turn and year (see `calendar_from`).
pub fn calendar_from_fields(turn: Option<u64>, year: Option<u64>) -> (r: Calendar)
    ensures
        r == calendar_from(turn, year),
{
    let t: u32 = match turn {
        Some(v) => v as u32,
        None => 0,
    };
    let y: u32 = match year {
        Some(v) => v as u32,
        None => 1900,
    };
    calendar_at(t, y)
}

/// The calendar recorded in the text of a save's `storage.json`: its
/// `current_turn` and `year` fields (see `calendar_from`). `None` when the
/// text is not JSON.
pub fn calendar_from_storage(text: &str) -> (r: Option<Calendar>)
    ensures
        r == match (json_field_u64(text@, "current_turn"@), json_field_u64(text@, "year"@)) {
            (Some(t), Some(y)) => Some(calendar_from(t, y)),
            _ => None,
        },
{
    let turn = top_level_u64(text, "current_turn");
    let year = top_level_u64(text, "year");
    match (turn, year) {
        (Some(t), Some(y)) => Some(calendar_from_fields(t, y)),
        _ => None,
    }
}

/// The calendar advances in step with the turn: every month has two
/// turns, the first not a half-month turn and the second one, and the
/// month after the 24th turn of a year is January again.
pub proof fn law_two_turns_per_month(turn: u32, year: u32)
    requires
        0 < turn,
        turn + 24 <= u32::MAX,
    ensures
        1 <= calendar_of(turn, year).current_month <= 12,
        calendar_of((turn + 24) as u32, year).current_month == calendar_of(turn, year).current_month,
        calendar_of((turn + 24) as u32, year).half_month == calendar_of(turn, year).half_month,
        !calendar_of(turn, year).half_month ==> calendar_of((turn + 1) as u32, year).current_month
            == calendar_of(turn, year).current_month && calendar_of((turn + 1) as u32, year).half_month,
{
}

} // verus!
