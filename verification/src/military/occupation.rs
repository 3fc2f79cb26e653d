//! Cultural groups used by occupation mechanics.
use vstd::prelude::*;
use crate::text::{ascii_lowercase, eq_ignore_ascii_case};

verus! {

/// The broad cultural groups and the cultures each contains.
pub open spec fn cultural_groups() -> Seq<Seq<Seq<char>>> {
    seq![
        seq!["slavic"@, "polish"@, "russian"@, "ukrainian"@, "czech"@, "serbian"@, "bulgarian"@],
        seq!["germanic"@, "german"@, "english"@, "dutch"@, "swedish"@, "danish"@, "norwegian"@],
        seq!["latin"@, "italian"@, "french"@, "spanish"@, "portuguese"@, "romanian"@],
        seq!["nordic"@, "swedish"@, "danish"@, "norwegian"@, "finnish"@, "icelandic"@],
        seq!["asian"@, "chinese"@, "japanese"@, "korean"@, "vietnamese"@],
        seq!["middle_eastern"@, "arab"@, "persian"@, "turkish"@],
    ]
}

/// Whether `culture` names a member of `group`, ignoring ASCII case.
pub open spec fn in_group(group: Seq<Seq<char>>, culture: Seq<char>) -> bool {
    exists|k: int| 0 <= k < group.len() && ascii_lowercase(culture) == ascii_lowercase(#[trigger] group[k])
}

/// Whether two cultures belong to the same broad cultural group.
pub open spec fn same_cultural_group(a: Seq<char>, b: Seq<char>) -> bool {
    exists|g: int|
        0 <= g < cultural_groups().len() && in_group(#[trigger] cultural_groups()[g], a) && in_group(cultural_groups()[g], b)
}

fn group_names(g: usize) -> (r: Vec<&'static str>)
    requires
        g < 6,
    ensures
        r@.map_values(|s: &'static str| s@) == cultural_groups()[g as int],
{
    let r = if g == 0 {
        vec!["slavic", "polish", "russian", "ukrainian", "czech", "serbian", "bulgarian"]
    } else if g == 1 {
        vec!["germanic", "german", "english", "dutch", "swedish", "danish", "norwegian"]
    } else if g == 2 {
        vec!["latin", "italian", "french", "spanish", "portuguese", "romanian"]
    } else if g == 3 {
        vec!["nordic", "swedish", "danish", "norwegian", "finnish", "icelandic"]
    } else if g == 4 {
        vec!["asian", "chinese", "japanese", "korean", "vietnamese"]
    } else {
        vec!["middle_eastern", "arab", "persian", "turkish"]
    };
    assert(r@.map_values(|s: &'static str| s@) =~= cultural_groups()[g as int]);
    r
}

fn is_in_group(names: &Vec<&'static str>, culture: &str) -> (r: bool)
    ensures
        r == in_group(names@.map_values(|s: &'static str| s@), culture@),
{
    let ghost group = names@.map_values(|s: &'static str| s@);
    let mut k: usize = 0;
    while k < names.len()
        invariant
            k <= names@.len(),
            group == names@.map_values(|s: &'static str| s@),
            forall|j: int| 0 <= j < k ==> ascii_lowercase(culture@) != ascii_lowercase(#[trigger] group[j]),
        decreases names@.len() - k,
    {
        if eq_ignore_ascii_case(culture, names[k]) {
            assert(ascii_lowercase(culture@) == ascii_lowercase(group[k as int]));
            return true;
        }
        k = k + 1;
    }
    false
}

/// Checks if two cultures belong to the same broad cultural group,
/// ignoring ASCII case.
pub fn is_same_cultural_group(culture_a: &str, culture_b: &str) -> (r: bool)
    ensures
        r == same_cultural_group(culture_a@, culture_b@),
{
    let mut g: usize = 0;
    while g < 6
        invariant
            g <= 6,
            forall|j: int| 0 <= j < g ==> !(in_group(#[trigger] cultural_groups()[j], culture_a@) && in_group(cultural_groups()[j], culture_b@)),
        decreases 6 - g,
    {
        let names = group_names(g);
        let a_in = is_in_group(&names, culture_a);
        let b_in = is_in_group(&names, culture_b);
        if a_in && b_in {
            return true;
        }
        g = g + 1;
    }
    false
}

/// Belonging to the same cultural group does not depend on the order of
/// the two cultures.
pub proof fn law_same_cultural_group_symmetric(a: Seq<char>, b: Seq<char>)
    ensures
        same_cultural_group(a, b) == same_cultural_group(b, a),
{
}

} // verus!
