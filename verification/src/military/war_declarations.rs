//! War declarations: the stated reasons for war, the lists of the wars
//! each country fights, declaring war and ending it, and the key under
//! which the bilateral tension between two countries is kept.
use vstd::prelude::*;
use crate::text::{clone_names, contains_name, push_char, str_eq};

verus! {

/// The stated reason for declaring war.
#[derive(Debug, Clone, PartialEq, Eq, Hash)]
pub enum WarReason {
    /// War to conquer territory from the target.
    TerritorialConquest,
    /// War to change the target's government or regime.
    RegimeChange,
    /// War to control strategic resources in the target's territory.
    ResourceControl,
    /// Preemptive strike against a growing threat.
    PreemptiveStrike,
    /// War triggered by tension escalation (no explicit reason).
    TensionEscalation,
}

/// Whether `a` comes no later than `b` in the lexicographic order of
/// their characters, comparing from position `i` on.
pub open spec fn lex_le_from(a: Seq<char>, b: Seq<char>, i: int) -> bool
    decreases a.len() - i,
{
    if i < 0 || i >= a.len() {
        true
    } else if i >= b.len() {
        false
    } else if a[i] != b[i] {
        a[i] < b[i]
    } else {
        lex_le_from(a, b, i + 1)
    }
}

/// Whether `a <= b` in the lexicographic order of their characters (the
/// order of `str`'s `<=`: UTF-8 byte order is code-point order).
pub open spec fn lex_le(a: Seq<char>, b: Seq<char>) -> bool {
    lex_le_from(a, b, 0)
}

/// The key of the pair `{a, b}`: the two names in lexicographic order,
/// joined by `'|'`.
pub open spec fn tension_key_of(a: Seq<char>, b: Seq<char>) -> Seq<char> {
    if lex_le(a, b) {
        a.push('|') + b
    } else {
        b.push('|') + a
    }
}

proof fn lemma_lex_le_antisymmetric_from(a: Seq<char>, b: Seq<char>, i: int)
    requires
        0 <= i,
        forall|j: int| 0 <= j < i ==> j < a.len() && j < b.len() && a[j] == b[j],
        lex_le_from(a, b, i),
        lex_le_from(b, a, i),
    ensures
        a == b,
    decreases a.len() - i,
{
    if i >= a.len() {
        if i > 0 {
            assert(a[i - 1] == b[i - 1]);
        }
        assert(i == a.len());
        if i < b.len() {
            assert(!lex_le_from(b, a, i));
        }
        assert(b.len() == i);
        assert(a =~= b);
    } else {
        lemma_lex_le_antisymmetric_from(a, b, i + 1);
    }
}

proof fn lemma_lex_le_total_from(a: Seq<char>, b: Seq<char>, i: int)
    requires
        0 <= i,
    ensures
        lex_le_from(a, b, i) || lex_le_from(b, a, i),
    decreases a.len() - i,
{
    if i < a.len() && i < b.len() {
        if a[i] == b[i] {
            lemma_lex_le_total_from(a, b, i + 1);
        }
    }
}

/// `lex_le` is antisymmetric and total.
pub proof fn lemma_lex_le_order(a: Seq<char>, b: Seq<char>)
    ensures
        lex_le(a, b) && lex_le(b, a) ==> a == b,
        lex_le(a, b) || lex_le(b, a),
{
    if lex_le(a, b) && lex_le(b, a) {
        lemma_lex_le_antisymmetric_from(a, b, 0);
    }
    lemma_lex_le_total_from(a, b, 0);
}

/// Whether `a <= b` in the lexicographic order of their characters.
fn str_lex_le(a: &str, b: &str) -> (r: bool)
    ensures
        r == lex_le(a@, b@),
{
    let n = a.unicode_len();
    let m = b.unicode_len();
    let mut i: usize = 0;
    while i < n
        invariant
            i <= n,
            n == a@.len(),
            m == b@.len(),
            lex_le_from(a@, b@, 0) == lex_le_from(a@, b@, i as int),
        decreases n - i,
    {
        if i >= m {
            return false;
        }
        let ca = a.get_char(i);
        let cb = b.get_char(i);
        if ca != cb {
            return ca < cb;
        }
        i = i + 1;
    }
    true
}

/// Generates a bilateral tension key: the two country names in sorted
/// order, joined by `'|'`.
pub fn tension_key(country_a: &str, country_b: &str) -> (r: String)
    ensures
        r@ == tension_key_of(country_a@, country_b@),
{
    let (first, second) = if str_lex_le(country_a, country_b) {
        (country_a, country_b)
    } else {
        (country_b, country_a)
    };
    let mut key = String::new();
    key.append(first);
    push_char(&mut key, '|');
    key.append(second);
    proof {
        assert(key@ =~= tension_key_of(country_a@, country_b@));
    }
    key
}

/// The tension key does not depend on the order in which the two
/// countries are given.
pub proof fn law_tension_key_symmetric(a: Seq<char>, b: Seq<char>)
    ensures
        tension_key_of(a, b) == tension_key_of(b, a),
{
    lemma_lex_le_order(a, b);
}

/// The tension key names the lexicographically smaller country first.
pub proof fn law_tension_key_sorted(a: Seq<char>, b: Seq<char>)
    ensures
        lex_le(a, b) ==> tension_key_of(a, b) == a.push('|') + b,
        lex_le(b, a) ==> tension_key_of(a, b) == b.push('|') + a,
{
    lemma_lex_le_order(a, b);
}

/// Whether `'|'` occurs in `s` at `p` and nowhere else.
pub open spec fn sole_separator_at(s: Seq<char>, p: int) -> bool {
    &&& 0 <= p < s.len()
    &&& s[p] == '|'
    &&& forall|j: int| 0 <= j < s.len() && j != p ==> #[trigger] s[j] != '|'
}

fn chars_between(s: &str, from: usize, to: usize) -> (r: String)
    requires
        from <= to <= s@.len(),
    ensures
        r@ == s@.subrange(from as int, to as int),
{
    let mut r = String::new();
    let mut i: usize = from;
    while i < to
        invariant
            from <= i <= to,
            to <= s@.len(),
            r@ == s@.subrange(from as int, i as int),
        decreases to - i,
    {
        push_char(&mut r, s.get_char(i));
        i = i + 1;
        assert(r@ =~= s@.subrange(from as int, i as int));
    }
    r
}

/// Splits a tension key into its two country names: the text before and
/// after its separator `'|'`. A key with no separator, or with more than
/// one, names no pair.
pub fn parse_tension_key(key: &str) -> (r: Option<(String, String)>)
    ensures
        r is Some <==> exists|p: int| sole_separator_at(key@, p),
        r matches Some(pair) ==> exists|p: int|
            sole_separator_at(key@, p) && pair.0@ == key@.take(p) && pair.1@ == key@.skip(p + 1),
{
    let n = key.unicode_len();
    let mut count: usize = 0;
    let mut pos: usize = 0;
    let mut i: usize = 0;
    while i < n
        invariant
            i <= n,
            n == key@.len(),
            count <= i,
            count == 0 ==> forall|j: int| 0 <= j < i ==> #[trigger] key@[j] != '|',
            count >= 1 ==> pos < i && key@[pos as int] == '|',
            count == 1 ==> forall|j: int| 0 <= j < i && j != pos ==> #[trigger] key@[j] != '|',
            count >= 2 ==> exists|j: int| 0 <= j < i && j != pos && #[trigger] key@[j] == '|',
        decreases n - i,
    {
        if key.get_char(i) == '|' {
            if count == 0 {
                pos = i;
            } else {
                assert(key@[i as int] == '|');
            }
            count = count + 1;
        }
        i = i + 1;
    }
    if count == 1 {
        let first = chars_between(key, 0, pos);
        let second = chars_between(key, pos + 1, n);
        assert(sole_separator_at(key@, pos as int));
        assert(first@ =~= key@.take(pos as int));
        assert(second@ =~= key@.skip(pos as int + 1));
        Some((first, second))
    } else {
        if count == 0 {
            assert forall|p: int| !sole_separator_at(key@, p) by {
                if 0 <= p < key@.len() {
                    assert(key@[p] != '|');
                }
            }
        } else {
            assert forall|p: int| !sole_separator_at(key@, p) by {
                if sole_separator_at(key@, p) {
                    let j = choose|j: int| 0 <= j < n && j != pos && #[trigger] key@[j] == '|';
                    assert(key@[pos as int] == '|');
                    assert(j == p);
                    assert(pos as int == p);
                }
            }
        }
        None
    }
}

/// Reading back the key of two countries whose names hold no `'|'` gives
/// the two names, the lexicographically smaller first.
pub proof fn law_tension_key_parses_back(a: Seq<char>, b: Seq<char>)
    requires
        forall|j: int| 0 <= j < a.len() ==> #[trigger] a[j] != '|',
        forall|j: int| 0 <= j < b.len() ==> #[trigger] b[j] != '|',
    ensures
        lex_le(a, b) ==> sole_separator_at(tension_key_of(a, b), a.len() as int)
            && tension_key_of(a, b).take(a.len() as int) == a
            && tension_key_of(a, b).skip(a.len() as int + 1) == b,
        !lex_le(a, b) ==> sole_separator_at(tension_key_of(a, b), b.len() as int)
            && tension_key_of(a, b).take(b.len() as int) == b
            && tension_key_of(a, b).skip(b.len() as int + 1) == a,
{
    let k1 = a.push('|') + b;
    let k2 = b.push('|') + a;
    assert(k1.take(a.len() as int) =~= a);
    assert(k1.skip(a.len() as int + 1) =~= b);
    assert(k2.take(b.len() as int) =~= b);
    assert(k2.skip(b.len() as int + 1) =~= a);
    assert forall|j: int| 0 <= j < k1.len() && j != a.len() implies #[trigger] k1[j] != '|' by {
        if j < a.len() {
            assert(k1[j] == a[j]);
        } else {
            assert(k1[j] == b[j - a.len() - 1]);
        }
    }
    assert forall|j: int| 0 <= j < k2.len() && j != b.len() implies #[trigger] k2[j] != '|' by {
        if j < b.len() {
            assert(k2[j] == b[j]);
        } else {
            assert(k2[j] == a[j - b.len() - 1]);
        }
    }
}

impl WarReason {
    /// The name of the reason, as it appears in declaration messages.
    pub open spec fn name(self) -> Seq<char> {
        match self {
            WarReason::TerritorialConquest => "TerritorialConquest"@,
            WarReason::RegimeChange => "RegimeChange"@,
            WarReason::ResourceControl => "ResourceControl"@,
            WarReason::PreemptiveStrike => "PreemptiveStrike"@,
            WarReason::TensionEscalation => "TensionEscalation"@,
        }
    }

    /// The name of the reason, as it appears in declaration messages.
    pub fn name_str(&self) -> (r: &'static str)
        ensures
            r@ == self.name(),
    {
        match self {
            WarReason::TerritorialConquest => "TerritorialConquest",
            WarReason::RegimeChange => "RegimeChange",
            WarReason::ResourceControl => "ResourceControl",
            WarReason::PreemptiveStrike => "PreemptiveStrike",
            WarReason::TensionEscalation => "TensionEscalation",
        }
    }
}

/// The state of a war between two countries.
#[derive(Debug, Clone, PartialEq)]
pub struct WarState {
    /// Country that initiated the war.
    pub aggressor: String,
    /// Country that was attacked.
    pub defender: String,
    /// Turn when the war started.
    pub start_turn: u32,
    /// Reason for the war.
    pub reason: WarReason,
    /// The country that has asked for peace, if any.
    pub peace_requested_by: Option<String>,
}

impl WarState {
    /// Creates a new war state with no peace request.
    pub fn new(aggressor: String, defender: String, start_turn: u32, reason: WarReason) -> (r: Self)
        ensures
            r == (WarState { aggressor, defender, start_turn, reason, peace_requested_by: None }),
    {
        WarState { aggressor, defender, start_turn, reason, peace_requested_by: None }
    }
}

/// The names of a list of countries.
pub open spec fn names_of(v: Seq<String>) -> Seq<Seq<char>> {
    v.map_values(|s: String| s@)
}

/// The countries `country` is at war with in a list of
/// `(country, enemies)` entries: those of the first entry for it, or none.
pub open spec fn enemies_in(entries: Seq<(String, Vec<String>)>, country: Seq<char>) -> Seq<Seq<char>>
    decreases entries.len(),
{
    if entries.len() == 0 {
        Seq::empty()
    } else if entries[0].0@ == country {
        names_of(entries[0].1@)
    } else {
        enemies_in(entries.drop_first(), country)
    }
}

/// For each country, the list of the countries it is at war with.
#[derive(Debug, Clone, PartialEq)]
pub struct WarLists {
    /// `(country, enemies)` entries; the first entry for a country holds
    /// its enemies.
    pub entries: Vec<(String, Vec<String>)>,
}

impl WarLists {
    /// The countries `country` is at war with.
    pub open spec fn enemies(&self, country: Seq<char>) -> Seq<Seq<char>> {
        enemies_in(self.entries@, country)
    }

    /// Creates war lists in which no country is at war.
    pub fn new() -> (r: Self)
        ensures
            forall|c: Seq<char>| #[trigger] r.enemies(c) == Seq::<Seq<char>>::empty(),
    {
        WarLists { entries: Vec::new() }
    }

    /// The index of the first entry for `country`, if any.
    fn position(&self, country: &str) -> (r: Option<usize>)
        ensures
            r matches Some(i) ==> i < self.entries@.len() && self.entries@[i as int].0@ == country@
                && self.enemies(country@) == names_of(self.entries@[i as int].1@)
                && forall|j: int| 0 <= j < i ==> #[trigger] self.entries@[j].0@ != country@,
            r is None ==> self.enemies(country@) == Seq::<Seq<char>>::empty()
                && forall|j: int| 0 <= j < self.entries@.len() ==> #[trigger] self.entries@[j].0@ != country@,
    {
        assert(self.entries@.skip(0) =~= self.entries@);
        let mut k: usize = 0;
        while k < self.entries.len()
            invariant
                k <= self.entries.len(),
                forall|j: int| 0 <= j < k ==> #[trigger] self.entries@[j].0@ != country@,
                self.enemies(country@) == enemies_in(self.entries@.skip(k as int), country@),
            decreases self.entries.len() - k,
        {
            assert(self.entries@.skip(k as int).drop_first() =~= self.entries@.skip(k as int + 1));
            if str_eq(self.entries[k].0.as_str(), country) {
                return Some(k);
            }
            k = k + 1;
        }
        None
    }

    /// The countries `country` is at war with (none if it has no entry).
    pub fn enemies_of(&self, country: &str) -> (r: Vec<String>)
        ensures
            names_of(r@) == self.enemies(country@),
    {
        proof {
            assert(self.entries@.skip(0) =~= self.entries@);
        }
        match self.position(country) {
            Some(i) => crate::text::clone_names(&self.entries[i].1),
            None => {
                let r: Vec<String> = Vec::new();
                assert(names_of(r@) =~= Seq::<Seq<char>>::empty());
                r
            },
        }
    }

    /// Whether `a` is at war with `b`.
    pub fn is_at_war(&self, a: &str, b: &str) -> (r: bool)
        ensures
            r == self.enemies(a@).contains(b@),
    {
        proof {
            assert(self.entries@.skip(0) =~= self.entries@);
        }
        match self.position(a) {
            Some(i) => {
                let r = contains_name(&self.entries[i].1, b);
                proof {
                    let v = self.entries@[i as int].1@;
                    if r {
                        let k = choose|k: int| 0 <= k < v.len() && #[trigger] v[k]@ == b@;
                        assert(names_of(v)[k] == b@);
                    }
                    if names_of(v).contains(b@) {
                        let k = choose|k: int| 0 <= k < names_of(v).len() && names_of(v)[k] == b@;
                        assert(v[k]@ == b@);
                    }
                }
                r
            },
            None => false,
        }
    }

    /// Adds `enemy` to the war list of `country`, creating the list if
    /// needed.
    fn add_enemy(&mut self, country: &str, enemy: &str)
        ensures
            forall|c: Seq<char>|
                #[trigger] final(self).enemies(c) == if c == country@ {
                    old(self).enemies(c).push(enemy@)
                } else {
                    old(self).enemies(c)
                },
    {
        proof {
            assert(self.entries@.skip(0) =~= self.entries@);
        }
        let ghost before = self.entries@;
        match self.position(country) {
            Some(i) => {
                self.entries[i].1.push(String::from_str(enemy));
                proof {
                    assert forall|c: Seq<char>|
                        #[trigger] enemies_in(self.entries@, c) == if c == country@ {
                            enemies_in(before, c).push(enemy@)
                        } else {
                            enemies_in(before, c)
                        } by {
                        lemma_enemies_in_update(before, i as int, self.entries@[i as int], c);
                        assert(names_of(self.entries@[i as int].1@) =~= names_of(before[i as int].1@).push(enemy@));
                    }
                }
            },
            None => {
                let mut list: Vec<String> = Vec::new();
                list.push(String::from_str(enemy));
                self.entries.push((String::from_str(country), list));
                proof {
                    assert forall|c: Seq<char>|
                        #[trigger] enemies_in(self.entries@, c) == if c == country@ {
                            enemies_in(before, c).push(enemy@)
                        } else {
                            enemies_in(before, c)
                        } by {
                        lemma_enemies_in_push(before, self.entries@.last(), c);
                        assert(names_of(self.entries@.last().1@) =~= seq![enemy@]);
                        assert(Seq::<Seq<char>>::empty().push(enemy@) =~= seq![enemy@]);
                    }
                }
            },
        }
    }

    /// Removes `enemy` from the war list of `country`, if it has one.
    fn remove_enemy(&mut self, country: &str, enemy: &str)
        ensures
            forall|c: Seq<char>|
                #[trigger] final(self).enemies(c) == if c == country@ {
                    old(self).enemies(c).filter(|w: Seq<char>| w != enemy@)
                } else {
                    old(self).enemies(c)
                },
    {
        proof {
            assert(self.entries@.skip(0) =~= self.entries@);
        }
        let ghost before = self.entries@;
        match self.position(country) {
            Some(i) => {
                let ghost old_list = self.entries@[i as int].1@;
                let kept = remove_name(&self.entries[i].1, enemy);
                self.entries[i].1 = kept;
                proof {
                    assert forall|c: Seq<char>|
                        #[trigger] enemies_in(self.entries@, c) == if c == country@ {
                            enemies_in(before, c).filter(|w: Seq<char>| w != enemy@)
                        } else {
                            enemies_in(before, c)
                        } by {
                        lemma_enemies_in_update(before, i as int, self.entries@[i as int], c);
                    }
                }
            },
            None => {
                proof {
                    assert forall|c: Seq<char>|
                        #[trigger] enemies_in(self.entries@, c) == if c == country@ {
                            enemies_in(before, c).filter(|w: Seq<char>| w != enemy@)
                        } else {
                            enemies_in(before, c)
                        } by {
                        if c == country@ {
                            assert(Seq::<Seq<char>>::empty().filter(|w: Seq<char>| w != enemy@) =~= Seq::<Seq<char>>::empty()) by {
                                reveal(Seq::filter);
                            }
                        }
                    }
                }
            },
        }
    }
}

/// A copy of `names` without the entries equal to `name`.
fn remove_name(names: &Vec<String>, name: &str) -> (r: Vec<String>)
    ensures
        names_of(r@) == names_of(names@).filter(|w: Seq<char>| w != name@),
{
    let ghost pred = |w: Seq<char>| w != name@;
    let mut r: Vec<String> = Vec::new();
    let mut k: usize = 0;
    while k < names.len()
        invariant
            k <= names.len(),
            names_of(r@) == names_of(names@.take(k as int)).filter(pred),
            pred == (|w: Seq<char>| w != name@),
        decreases names.len() - k,
    {
        proof {
            assert(names_of(names@.take(k as int + 1)).drop_last() =~= names_of(names@.take(k as int)));
            assert(names_of(names@.take(k as int + 1)).last() == names@[k as int]@);
            reveal(Seq::filter);
        }
        if !str_eq(names[k].as_str(), name) {
            r.push(names[k].clone());
        }
        k = k + 1;
        assert(names_of(r@) =~= names_of(names@.take(k as int)).filter(pred));
    }
    assert(names@.take(k as int) =~= names@);
    r
}

proof fn lemma_enemies_in_update(entries: Seq<(String, Vec<String>)>, i: int, e: (String, Vec<String>), c: Seq<char>)
    requires
        0 <= i < entries.len(),
        entries[i].0@ == e.0@,
        forall|j: int| 0 <= j < i ==> #[trigger] entries[j].0@ != e.0@,
    ensures
        enemies_in(entries.update(i, e), c) == if c == e.0@ { names_of(e.1@) } else { enemies_in(entries, c) },
    decreases i,
{
    let updated = entries.update(i, e);
    if i > 0 {
        assert(updated.drop_first() =~= entries.drop_first().update(i - 1, e));
        lemma_enemies_in_update(entries.drop_first(), i - 1, e, c);
        assert(updated[0] == entries[0]);
    } else {
        assert(updated.drop_first() =~= entries.drop_first());
        assert(updated[0] == e);
    }
}

proof fn lemma_enemies_in_push(entries: Seq<(String, Vec<String>)>, e: (String, Vec<String>), c: Seq<char>)
    requires
        forall|j: int| 0 <= j < entries.len() ==> #[trigger] entries[j].0@ != e.0@,
    ensures
        enemies_in(entries.push(e), c) == if c == e.0@ { names_of(e.1@) } else { enemies_in(entries, c) },
    decreases entries.len(),
{
    let pushed = entries.push(e);
    if entries.len() == 0 {
        assert(pushed.drop_first() =~= Seq::<(String, Vec<String>)>::empty());
        assert(pushed[0] == e);
        assert(enemies_in(pushed.drop_first(), c) == Seq::<Seq<char>>::empty());
    } else {
        assert(pushed.drop_first() =~= entries.drop_first().push(e));
        lemma_enemies_in_push(entries.drop_first(), e, c);
        assert(pushed[0] == entries[0]);
    }
}

/// The war lists after `a` declares war on `d`: `d` joins the list of
/// `a`, then `a` joins the list of `d`.
pub open spec fn declared_enemies(before: WarLists, a: Seq<char>, d: Seq<char>, c: Seq<char>) -> Seq<Seq<char>> {
    let mid = if c == a { before.enemies(c).push(d) } else { before.enemies(c) };
    if c == d { mid.push(a) } else { mid }
}

/// The war lists after peace between `a` and `d`: `d` leaves the list of
/// `a`, then `a` leaves the list of `d`.
pub open spec fn peace_enemies(before: WarLists, a: Seq<char>, d: Seq<char>, c: Seq<char>) -> Seq<Seq<char>> {
    let mid = if c == a { before.enemies(c).filter(|w: Seq<char>| w != d) } else { before.enemies(c) };
    if c == d { mid.filter(|w: Seq<char>| w != a) } else { mid }
}

/// The message logged when `a` is already at war with `d`.
pub open spec fn already_at_war_message(a: Seq<char>, d: Seq<char>) -> Seq<char> {
    "[WAR] "@ + a + " is already at war with "@ + d
}

/// The message logged when `a` declares war on `d`.
pub open spec fn declaration_message(a: Seq<char>, d: Seq<char>, reason: WarReason) -> Seq<char> {
    "[WAR] "@ + a + " declares war on "@ + d + " (reason: "@ + reason.name() + ")"@
}

/// Result of a war declaration.
#[derive(Debug, Clone, PartialEq)]
pub struct WarDeclarationResult {
    /// Whether war was declared.
    pub declared: bool,
    /// The war state, if war was declared.
    pub war_state: Option<WarState>,
    /// Log messages.
    pub messages: Vec<String>,
}

/// Declares war directly: unless `aggressor` is already at war with
/// `defender`, each joins the other's war list and the war state is
/// returned.
pub fn declare_war(aggressor: &str, defender: &str, turn: u32, reason: WarReason, at_war_with: &mut WarLists) -> (r:
    WarDeclarationResult)
    ensures
        r.declared == !old(at_war_with).enemies(aggressor@).contains(defender@),
        !r.declared ==> {
            &&& final(at_war_with).entries@ == old(at_war_with).entries@
            &&& r.war_state is None
            &&& names_of(r.messages@) == seq![already_at_war_message(aggressor@, defender@)]
        },
        r.declared ==> {
            &&& forall|c: Seq<char>|
                #[trigger] final(at_war_with).enemies(c) == declared_enemies(*old(at_war_with), aggressor@, defender@, c)
            &&& r.war_state matches Some(w) && w.aggressor@ == aggressor@ && w.defender@ == defender@
                && w.start_turn == turn && w.reason == reason && w.peace_requested_by is None
            &&& names_of(r.messages@) == seq![declaration_message(aggressor@, defender@, reason)]
        },
{
    proof {
        reveal_strlit("[WAR] ");
        reveal_strlit(" is already at war with ");
        reveal_strlit(" declares war on ");
        reveal_strlit(" (reason: ");
        reveal_strlit(")");
    }
    let mut messages: Vec<String> = Vec::new();
    if at_war_with.is_at_war(aggressor, defender) {
        let mut m = String::from_str("[WAR] ");
        m.append(aggressor);
        m.append(" is already at war with ");
        m.append(defender);
        messages.push(m);
        assert(names_of(messages@) =~= seq![already_at_war_message(aggressor@, defender@)]);
        return WarDeclarationResult { declared: false, war_state: None, messages };
    }
    let ghost before = *at_war_with;
    at_war_with.add_enemy(aggressor, defender);
    at_war_with.add_enemy(defender, aggressor);
    let war_state = WarState::new(String::from_str(aggressor), String::from_str(defender), turn, reason);
    let mut m = String::from_str("[WAR] ");
    m.append(aggressor);
    m.append(" declares war on ");
    m.append(defender);
    m.append(" (reason: ");
    m.append(war_state.reason.name_str());
    m.append(")");
    messages.push(m);
    assert(names_of(messages@) =~= seq![declaration_message(aggressor@, defender@, reason)]);
    WarDeclarationResult { declared: true, war_state: Some(war_state), messages }
}

/// Ends the war between `aggressor` and `defender` in the war lists: each
/// leaves the other's list (the war-list part of a peace settlement).
pub fn end_war(aggressor: &str, defender: &str, at_war_with: &mut WarLists)
    ensures
        forall|c: Seq<char>|
            #[trigger] final(at_war_with).enemies(c) == peace_enemies(*old(at_war_with), aggressor@, defender@, c),
{
    at_war_with.remove_enemy(aggressor, defender);
    at_war_with.remove_enemy(defender, aggressor);
}

/// The terms of a peace, as far as regions and prisoners go (any
/// reparations amount is kept by the caller).
#[derive(Debug, Clone, PartialEq)]
pub enum SettlementTerms {
    /// Return to pre-war borders and status.
    StatusQuoAnte,
    /// The defender cedes these regions to the aggressor.
    TerritorialCession {
        /// Region IDs to transfer.
        regions: Vec<String>,
    },
    /// The defender pays reparations, with POW repatriation or not.
    Reparations {
        /// Whether POW repatriation is included.
        pow_repatriation: bool,
    },
    /// Unconditional surrender: cession of these regions, reparations and
    /// POW repatriation.
    UnconditionalSurrender {
        /// Regions to transfer.
        regions: Vec<String>,
    },
    /// Repatriation of POWs only.
    RepatriationOfPows,
}

/// What a peace settles besides ending the war.
#[derive(Debug, Clone, PartialEq)]
pub struct PeaceOutcome {
    /// Regions transferred to the aggressor.
    pub regions_transferred: Vec<String>,
    /// Whether reparations are paid.
    pub reparations_paid: bool,
    /// Whether POWs are repatriated.
    pub pows_repatriated: bool,
}

/// The regions a peace transfers: those of a cession or of an
/// unconditional surrender, none otherwise.
pub open spec fn regions_of(terms: SettlementTerms) -> Seq<String> {
    match terms {
        SettlementTerms::TerritorialCession { regions } => regions@,
        SettlementTerms::UnconditionalSurrender { regions } => regions@,
        _ => Seq::empty(),
    }
}

/// Whether a peace brings reparations: under reparations terms and an
/// unconditional surrender.
pub open spec fn pays_reparations(terms: SettlementTerms) -> bool {
    terms is Reparations || terms is UnconditionalSurrender
}

/// Whether a peace repatriates POWs: when reparations terms include it,
/// on an unconditional surrender, and under repatriation terms.
pub open spec fn repatriates(terms: SettlementTerms) -> bool {
    match terms {
        SettlementTerms::Reparations { pow_repatriation } => pow_repatriation,
        SettlementTerms::UnconditionalSurrender { .. } => true,
        SettlementTerms::RepatriationOfPows => true,
        _ => false,
    }
}

/// Settles peace: the two countries leave each other's war lists (see
/// `end_war`), and the terms decide the regions transferred, whether
/// reparations are paid and whether POWs are repatriated.
pub fn settle_peace_terms(aggressor: &str, defender: &str, terms: &SettlementTerms, at_war_with: &mut WarLists) -> (r: PeaceOutcome)
    ensures
        forall|c: Seq<char>|
            #[trigger] final(at_war_with).enemies(c) == peace_enemies(*old(at_war_with), aggressor@, defender@, c),
        r.regions_transferred@ == regions_of(*terms),
        r.reparations_paid == pays_reparations(*terms),
        r.pows_repatriated == repatriates(*terms),
        *terms matches SettlementTerms::Reparations { pow_repatriation } ==> r.pows_repatriated == pow_repatriation
            && r.reparations_paid && r.regions_transferred@.len() == 0,
        *terms matches SettlementTerms::UnconditionalSurrender { regions } ==> r.pows_repatriated && r.reparations_paid
            && r.regions_transferred@ == regions@,
        *terms matches SettlementTerms::TerritorialCession { regions } ==> !r.pows_repatriated && !r.reparations_paid
            && r.regions_transferred@ == regions@,
        *terms is RepatriationOfPows ==> r.pows_repatriated && !r.reparations_paid && r.regions_transferred@.len() == 0,
        *terms is StatusQuoAnte ==> !r.pows_repatriated && !r.reparations_paid && r.regions_transferred@.len() == 0,
{
    end_war(aggressor, defender, at_war_with);
    match terms {
        SettlementTerms::StatusQuoAnte => PeaceOutcome { regions_transferred: Vec::new(), reparations_paid: false, pows_repatriated: false },
        SettlementTerms::TerritorialCession { regions } => PeaceOutcome {
            regions_transferred: clone_names(regions),
            reparations_paid: false,
            pows_repatriated: false,
        },
        SettlementTerms::Reparations { pow_repatriation } => PeaceOutcome {
            regions_transferred: Vec::new(),
            reparations_paid: true,
            pows_repatriated: *pow_repatriation,
        },
        SettlementTerms::UnconditionalSurrender { regions } => PeaceOutcome {
            regions_transferred: clone_names(regions),
            reparations_paid: true,
            pows_repatriated: true,
        },
        SettlementTerms::RepatriationOfPows => PeaceOutcome {
            regions_transferred: Vec::new(),
            reparations_paid: false,
            pows_repatriated: true,
        },
    }
}

/// What each kind of peace terms settles: reparations terms repatriate
/// POWs exactly when they say so; an unconditional surrender repatriates
/// them, brings reparations and cedes its regions; a cession cedes its
/// regions and nothing else; repatriation terms repatriate and nothing
/// else; the status quo ante settles nothing.
pub proof fn law_peace_terms_settle_what_they_say(p: bool, regions: Vec<String>)
    ensures
        repatriates(SettlementTerms::Reparations { pow_repatriation: p }) == p,
        pays_reparations(SettlementTerms::Reparations { pow_repatriation: p }),
        regions_of(SettlementTerms::Reparations { pow_repatriation: p }).len() == 0,
        repatriates(SettlementTerms::UnconditionalSurrender { regions }),
        pays_reparations(SettlementTerms::UnconditionalSurrender { regions }),
        regions_of(SettlementTerms::UnconditionalSurrender { regions }) == regions@,
        !repatriates(SettlementTerms::TerritorialCession { regions }),
        !pays_reparations(SettlementTerms::TerritorialCession { regions }),
        regions_of(SettlementTerms::TerritorialCession { regions }) == regions@,
        repatriates(SettlementTerms::RepatriationOfPows),
        !pays_reparations(SettlementTerms::RepatriationOfPows),
        !repatriates(SettlementTerms::StatusQuoAnte),
        !pays_reparations(SettlementTerms::StatusQuoAnte),
        regions_of(SettlementTerms::StatusQuoAnte).len() == 0,
{
}

/// A declared war is mutual: afterwards each side is on the other's war
/// list, and no third country's list has changed.
pub proof fn law_declared_war_is_mutual(before: WarLists, after: WarLists, a: Seq<char>, d: Seq<char>)
    requires
        forall|c: Seq<char>| #[trigger] after.enemies(c) == declared_enemies(before, a, d, c),
    ensures
        after.enemies(a).contains(d),
        after.enemies(d).contains(a),
        forall|c: Seq<char>| c != a && c != d ==> #[trigger] after.enemies(c) == before.enemies(c),
{
    let ea = after.enemies(a);
    let ed = after.enemies(d);
    if a == d {
        assert(ed[ed.len() - 1] == a);
    } else {
        assert(ea[ea.len() - 1] == d);
        assert(ed[ed.len() - 1] == a);
    }
    assert forall|c: Seq<char>| c != a && c != d implies #[trigger] after.enemies(c) == before.enemies(c) by {
        assert(after.enemies(c) == declared_enemies(before, a, d, c));
    }
}

/// Peace ends the war both ways: afterwards neither side is on the
/// other's war list, and no third country's list has changed.
pub proof fn law_peace_ends_war(before: WarLists, after: WarLists, a: Seq<char>, d: Seq<char>)
    requires
        forall|c: Seq<char>| #[trigger] after.enemies(c) == peace_enemies(before, a, d, c),
    ensures
        !after.enemies(a).contains(d),
        !after.enemies(d).contains(a),
        forall|c: Seq<char>| c != a && c != d ==> #[trigger] after.enemies(c) == before.enemies(c),
{
    broadcast use vstd::seq_lib::group_filter_ensures;
    let pa = |w: Seq<char>| w != a;
    let pd = |w: Seq<char>| w != d;
    assert(after.enemies(a) == peace_enemies(before, a, d, a));
    assert(after.enemies(d) == peace_enemies(before, a, d, d));
    if after.enemies(a).contains(d) {
        let k = choose|k: int| 0 <= k < after.enemies(a).len() && after.enemies(a)[k] == d;
        if a == d {
            let mid = before.enemies(a).filter(pd);
            assert(after.enemies(a) == mid.filter(pa));
        } else {
            assert(after.enemies(a) == before.enemies(a).filter(pd));
        }
    }
    if after.enemies(d).contains(a) {
        let k = choose|k: int| 0 <= k < after.enemies(d).len() && after.enemies(d)[k] == a;
        let mid = if d == a { before.enemies(d).filter(pd) } else { before.enemies(d) };
        assert(after.enemies(d) == mid.filter(pa));
    }
    assert forall|c: Seq<char>| c != a && c != d implies #[trigger] after.enemies(c) == before.enemies(c) by {
        assert(after.enemies(c) == peace_enemies(before, a, d, c));
    }
}

} // verus!
