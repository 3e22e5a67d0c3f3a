use vstd::prelude::*;

use crate::text::{
    all_digits, chars_of, concat2, dec, digit_char, digit_value, digits_value, is_digit, owned, push_char, push_dec, push_str,
    str_eq, trim, trimmed_chars,
};

verus! {

#[derive(Debug, Clone, Copy, PartialEq, Eq, Structural)]
pub enum ItemType {
    Gear,
    Weapon,
    Misc,
}

/// Stat strings of an item: a bare positive integer is a roll floor, a signed one a
/// post-roll modifier, and `""`, `"0"` or `"-"` mean no effect.
#[derive(Debug)]
pub struct ItemStats {
    pub strength: String,
    pub smarts: String,
    pub stealth: String,
}

/// Does the stat text mean "no effect"?
pub open spec fn neutral_stat(s: Seq<char>) -> bool {
    let t = trim(s);
    t == Seq::<char>::empty() || t == seq!['0'] || t == seq!['-']
}

pub open spec fn signed_text(t: Seq<char>) -> bool {
    t.len() > 0 && (t[0] == '+' || t[0] == '-')
}

/// Value of a non-empty run of digits when it is at most `limit`.
pub open spec fn bounded_digits(d: Seq<char>, limit: nat) -> Option<nat> {
    if d.len() > 0 && all_digits(d) && digits_value(d) <= limit {
        Some(digits_value(d))
    } else {
        None
    }
}

/// `u32::from_str`: an optional `+`, then one or more decimal digits, at most `u32::MAX`.
pub open spec fn u32_text_value(s: Seq<char>) -> Option<nat> {
    let d = if s.len() > 0 && s[0] == '+' {
        s.drop_first()
    } else {
        s
    };
    bounded_digits(d, u32::MAX as nat)
}

/// Reads a `u32` as `str::parse::<u32>` does.
pub fn parse_u32(s: &str) -> (r: Option<u32>)
    ensures
        r == (match u32_text_value(s@) {
            Some(x) => Some(x as u32),
            None => None::<u32>,
        }),
{
    let v = chars_of(s);
    let from: usize = if v.len() > 0 && v[0] == '+' {
        1
    } else {
        0
    };
    assert(v@.subrange(from as int, v@.len() as int) =~= (if v@.len() > 0 && v@[0] == '+' {
        v@.drop_first()
    } else {
        v@
    }));
    match parse_digits(&v, from, 0xFFFF_FFFF) {
        Some(x) => Some(x as u32),
        None => None,
    }
}

/// A number's decimal text is all digits and reads back as the number.
pub proof fn lemma_dec_digits(n: nat)
    ensures
        dec(n).len() > 0,
        all_digits(dec(n)),
        digits_value(dec(n)) == n,
    decreases n,
{
    if n < 10 {
        assert(digit_value(digit_char(n)) == n);
        let d = dec(n);
        assert(d.drop_last() =~= Seq::<char>::empty());
        assert(digits_value(d.drop_last()) == 0);
        assert(d.last() == digit_char(n));
        assert(digits_value(d) == digits_value(d.drop_last()) * 10 + digit_value(d.last()));
    } else {
        lemma_dec_digits(n / 10);
        let d = dec(n);
        assert(d.drop_last() =~= dec(n / 10));
        assert(digit_value(digit_char((n % 10) as nat)) == n % 10);
        assert(d.last() == digit_char((n % 10) as nat));
        assert(digits_value(d) == digits_value(d.drop_last()) * 10 + digit_value(d.last()));
        assert((n / 10) * 10 + n % 10 == n);
        assert(forall|i: int| 0 <= i < d.len() ==> is_digit(#[trigger] d[i])) by {
            assert forall|i: int| 0 <= i < d.len() implies is_digit(#[trigger] d[i]) by {
                if i < d.len() - 1 {
                    assert(d[i] == dec(n / 10)[i]);
                }
            }
        }
    }
}

/// A stat text gives a roll floor or a roll modifier, never both: a signed text (`+n`,
/// `-n`) is a modifier with no floor, and a plain number `n` of a byte is a floor of `n`.
pub proof fn lemma_floor_or_modifier(s: Seq<char>)
    ensures
        stat_floor(s) == 0 || stat_modifier(s) == 0,
        signed_text(trim(s)) ==> stat_floor(s) == 0,
        forall|n: u8| trim(s) == #[trigger] dec(n as nat) ==> stat_floor(s) == n,
{
    assert forall|n: u8| trim(s) == #[trigger] dec(n as nat) implies stat_floor(s) == n by {
        lemma_dec_digits(n as nat);
        let t = trim(s);
        if neutral_stat(s) {
            if t == seq!['0'] {
                if n >= 10 {
                    lemma_dec_len(n as nat);
                }
                assert(digits_value(t) == 0) by {
                    assert(t.drop_last() =~= Seq::<char>::empty());
                }
            } else if t == seq!['-'] {
                assert(is_digit(t[0]));
            } else {
                assert(false);
            }
        } else {
            assert(is_digit(t[0]));
            assert(!signed_text(t));
        }
    }
}

/// A bonus `+n` or `n` (with `n` at least 1, within a byte) reads as a modifier of `n` or
/// a floor of `n`.
pub proof fn lemma_stat_text_of_bonus(signed: bool, magnitude: u8)
    requires
        magnitude >= 1,
    ensures
        signed ==> stat_modifier(seq!['+'] + dec(magnitude as nat)) == magnitude,
        !signed ==> stat_floor(dec(magnitude as nat)) == magnitude,
{
    let d = dec(magnitude as nat);
    lemma_dec_digits(magnitude as nat);
    assert(is_digit(d[0]) && is_digit(d.last()));
    assert(crate::text::trim_start(d) == d);
    assert(crate::text::trim_end(d) == d);
    assert(trim(d) == d);
    if signed {
        let t = seq!['+'] + d;
        assert(t[0] == '+');
        assert(t.last() == d.last());
        assert(crate::text::trim_start(t) == t);
        assert(crate::text::trim_end(t) == t);
        assert(trim(t) == t);
        assert(t.drop_first() =~= d);
        assert(t.len() >= 2);
        assert(t != seq!['0'] && t != seq!['-']);
        assert(!neutral_stat(t));
        assert(signed_text(t));
        assert(bounded_digits(d, 32767) == Some(magnitude as nat));
    } else {
        lemma_floor_or_modifier(d);
        assert(stat_floor(d) == magnitude);
    }
}

proof fn lemma_dec_len(n: nat)
    requires
        n >= 10,
    ensures
        dec(n).len() >= 2,
    decreases n,
{
    assert(dec(n).len() == dec(n / 10).len() + 1);
    if n / 10 >= 10 {
        lemma_dec_len(n / 10);
    } else {
        assert(dec(n / 10).len() == 1);
    }
}

/// Roll floor of a stat text (`parse_stat_floor`).
pub open spec fn stat_floor(s: Seq<char>) -> u8 {
    let t = trim(s);
    if neutral_stat(s) || signed_text(t) {
        0
    } else {
        match bounded_digits(t, 255) {
            Some(v) => v as u8,
            None => 0,
        }
    }
}

/// Value of a signed integer text as `i16::from_str` reads it, 0 when it does not parse.
pub open spec fn signed_value(t: Seq<char>) -> i16 {
    let d = t.drop_first();
    if t[0] == '-' {
        match bounded_digits(d, 32768) {
            Some(v) => (-(v as int)) as i16,
            None => 0,
        }
    } else {
        match bounded_digits(d, 32767) {
            Some(v) => v as i16,
            None => 0,
        }
    }
}

/// Post-roll modifier of a stat text (`parse_stat_modifier`).
pub open spec fn stat_modifier(s: Seq<char>) -> i16 {
    let t = trim(s);
    if neutral_stat(s) || !signed_text(t) {
        0
    } else {
        signed_value(t)
    }
}

/// Display form of a stat text: neutral values show as `-`.
pub open spec fn stat_display(s: Seq<char>) -> Seq<char> {
    if neutral_stat(s) {
        seq!['-']
    } else {
        s
    }
}

proof fn lemma_digits_prefix_le(s: Seq<char>, i: int)
    requires
        0 <= i <= s.len(),
    ensures
        digits_value(s.subrange(0, i)) <= digits_value(s),
    decreases s.len(),
{
    if i < s.len() {
        lemma_digits_prefix_le(s.drop_last(), i);
        assert(s.drop_last().subrange(0, i) =~= s.subrange(0, i));
    } else {
        assert(s.subrange(0, i) =~= s);
    }
}

/// Reads `v[from..]` as a run of decimal digits no larger than `limit`, for any `u64` limit.
pub fn parse_digits_wide(v: &Vec<char>, from: usize, limit: u64) -> (r: Option<u64>)
    requires
        from <= v@.len(),
    ensures
        r == (match bounded_digits(v@.subrange(from as int, v@.len() as int), limit as nat) {
            Some(x) => Some(x as u64),
            None => None::<u64>,
        }),
{
    let n = v.len();
    let ghost d = v@.subrange(from as int, n as int);
    if from == n {
        return None;
    }
    let mut acc: u128 = 0;
    let mut i = from;
    while i < n
        invariant
            n == v@.len(),
            from <= i <= n,
            d == v@.subrange(from as int, n as int),
            all_digits(v@.subrange(from as int, i as int)),
            acc == digits_value(v@.subrange(from as int, i as int)),
            acc <= limit,
        decreases n - i,
    {
        let c = v[i];
        let ghost pre = v@.subrange(from as int, i as int);
        let ghost next = v@.subrange(from as int, i + 1);
        assert(next.drop_last() =~= pre);
        assert(d.subrange(0, i + 1 - from) =~= next);
        if !('0' <= c && c <= '9') {
            assert(d[i - from] == c);
            return None;
        }
        let dg: u128 = ((c as u32) - ('0' as u32)) as u128;
        assert(digits_value(next) == acc * 10 + dg);
        let nacc = acc * 10 + dg;
        if nacc > limit as u128 {
            proof {
                lemma_digits_prefix_le(d, i + 1 - from);
            }
            return None;
        }
        acc = nacc;
        i += 1;
        assert forall|j: int| 0 <= j < next.len() implies is_digit(#[trigger] next[j]) by {
            if j < pre.len() {
                assert(next[j] == pre[j]);
            }
        }
    }
    assert(v@.subrange(from as int, i as int) =~= d);
    Some(acc as u64)
}

/// Reads `v[from..]` as a run of decimal digits no larger than `limit`.
pub fn parse_digits(v: &Vec<char>, from: usize, limit: u64) -> (r: Option<u64>)
    requires
        from <= v@.len(),
        limit <= u32::MAX,
    ensures
        r == (match bounded_digits(v@.subrange(from as int, v@.len() as int), limit as nat) {
            Some(x) => Some(x as u64),
            None => None::<u64>,
        }),
{
    let n = v.len();
    let ghost d = v@.subrange(from as int, n as int);
    if from == n {
        return None;
    }
    let mut acc: u64 = 0;
    let mut i = from;
    while i < n
        invariant
            n == v@.len(),
            from <= i <= n,
            d == v@.subrange(from as int, n as int),
            limit <= u32::MAX,
            all_digits(v@.subrange(from as int, i as int)),
            acc == digits_value(v@.subrange(from as int, i as int)),
            acc <= limit,
        decreases n - i,
    {
        let c = v[i];
        let ghost pre = v@.subrange(from as int, i as int);
        let ghost next = v@.subrange(from as int, i + 1);
        assert(next.drop_last() =~= pre);
        assert(d.subrange(0, i + 1 - from) =~= next);
        if !('0' <= c && c <= '9') {
            assert(d[i - from] == c);
            return None;
        }
        let dg: u64 = ((c as u32) - ('0' as u32)) as u64;
        assert(digits_value(next) == acc * 10 + dg);
        let nacc = acc * 10 + dg;
        if nacc > limit {
            proof {
                lemma_digits_prefix_le(d, i + 1 - from);
            }
            return None;
        }
        acc = nacc;
        i += 1;
        assert forall|j: int| 0 <= j < next.len() implies is_digit(#[trigger] next[j]) by {
            if j < pre.len() {
                assert(next[j] == pre[j]);
            }
        }
    }
    assert(v@.subrange(from as int, i as int) =~= d);
    Some(acc)
}

/// Whether a stat string means no effect on that attribute.
pub fn is_neutral_stat(s: &str) -> (r: bool)
    ensures
        r == neutral_stat(s@),
{
    let t = trimmed_chars(s);
    let r = t.len() == 0 || (t.len() == 1 && (t[0] == '0' || t[0] == '-'));
    proof {
        if t@.len() == 1 {
            if t@[0] == '0' {
                assert(t@ =~= seq!['0']);
            }
            if t@[0] == '-' {
                assert(t@ =~= seq!['-']);
            }
        }
        if t@.len() == 0 {
            assert(t@ =~= Seq::<char>::empty());
        }
    }
    r
}

/// Format a stat for display; neutral values show as "-".
pub fn format_stat_display(s: &str) -> (r: String)
    ensures
        r@ == stat_display(s@),
{
    if is_neutral_stat(s) {
        let mut r = String::new();
        push_char(&mut r, '-');
        assert(r@ =~= seq!['-']);
        r
    } else {
        owned(s)
    }
}

/// Bare positive integer = roll floor; signed prefix = post-roll modifier.
pub fn parse_stat_floor(s: &str) -> (r: u8)
    ensures
        r == stat_floor(s@),
{
    if is_neutral_stat(s) {
        return 0;
    }
    let t = trimmed_chars(s);
    if t.len() > 0 && (t[0] == '+' || t[0] == '-') {
        return 0;
    }
    assert(t@.subrange(0, t@.len() as int) =~= t@);
    match parse_digits(&t, 0, 255) {
        Some(v) => v as u8,
        None => 0,
    }
}

pub fn parse_stat_modifier(s: &str) -> (r: i16)
    ensures
        r == stat_modifier(s@),
{
    if is_neutral_stat(s) {
        return 0;
    }
    let t = trimmed_chars(s);
    if !(t.len() > 0 && (t[0] == '+' || t[0] == '-')) {
        return 0;
    }
    assert(t@.subrange(1, t@.len() as int) =~= t@.drop_first());
    if t[0] == '-' {
        match parse_digits(&t, 1, 32768) {
            Some(v) => (0i64 - (v as i64)) as i16,
            None => 0,
        }
    } else {
        match parse_digits(&t, 1, 32767) {
            Some(v) => v as i16,
            None => 0,
        }
    }
}

/// Display text of a player roll: arrow up or down with the final roll when a modifier
/// applied, floor brackets when only a floor raised it.
pub open spec fn roll_breakdown(modifier: i16, floor_applied: bool, final_roll: u8) -> Seq<char> {
    if modifier > 0 {
        seq!['\u{2191}'] + dec(final_roll as nat)
    } else if modifier < 0 {
        seq!['\u{2193}'] + dec(final_roll as nat)
    } else if floor_applied {
        seq!['\u{230a}'] + dec(final_roll as nat) + seq!['\u{230b}']
    } else {
        dec(final_roll as nat)
    }
}

/// Format a player roll for display.
pub fn format_roll_breakdown(modifier: i16, floor_applied: bool, final_roll: u8) -> (r: String)
    ensures
        r@ == roll_breakdown(modifier, floor_applied, final_roll),
{
    let mut s = String::new();
    if modifier > 0 {
        push_char(&mut s, '\u{2191}');
        push_dec(&mut s, final_roll as u64);
    } else if modifier < 0 {
        push_char(&mut s, '\u{2193}');
        push_dec(&mut s, final_roll as u64);
    } else if floor_applied {
        push_char(&mut s, '\u{230a}');
        push_dec(&mut s, final_roll as u64);
        push_char(&mut s, '\u{230b}');
    } else {
        push_dec(&mut s, final_roll as u64);
    }
    assert(s@ =~= roll_breakdown(modifier, floor_applied, final_roll));
    s
}

impl Clone for ItemStats {
    fn clone(&self) -> (r: Self)
        ensures
            r == *self,
    {
        ItemStats {
            strength: self.strength.clone(),
            smarts: self.smarts.clone(),
            stealth: self.stealth.clone(),
        }
    }
}

impl ItemStats {
    pub open spec fn floors(&self) -> (u8, u8, u8) {
        (stat_floor(self.strength@), stat_floor(self.smarts@), stat_floor(self.stealth@))
    }

    pub open spec fn modifiers(&self) -> (i16, i16, i16) {
        (stat_modifier(self.strength@), stat_modifier(self.smarts@), stat_modifier(self.stealth@))
    }

    pub open spec fn triplet(&self) -> Seq<char> {
        stat_display(self.strength@) + seq![','] + stat_display(self.smarts@) + seq![',']
            + stat_display(self.stealth@)
    }

    pub fn zero() -> (r: Self)
        ensures
            r.strength@ == seq!['-'],
            r.smarts@ == seq!['-'],
            r.stealth@ == seq!['-'],
    {
        let mut a = String::new();
        push_char(&mut a, '-');
        let mut b = String::new();
        push_char(&mut b, '-');
        let mut c = String::new();
        push_char(&mut c, '-');
        proof {
            assert(a@ =~= seq!['-']);
            assert(b@ =~= seq!['-']);
            assert(c@ =~= seq!['-']);
        }
        ItemStats { strength: a, smarts: b, stealth: c }
    }

    pub fn total_floor(&self) -> (r: (u8, u8, u8))
        ensures
            r == self.floors(),
    {
        (
            parse_stat_floor(self.strength.as_str()),
            parse_stat_floor(self.smarts.as_str()),
            parse_stat_floor(self.stealth.as_str()),
        )
    }

    pub fn total_modifier(&self) -> (r: (i16, i16, i16))
        ensures
            r == self.modifiers(),
    {
        (
            parse_stat_modifier(self.strength.as_str()),
            parse_stat_modifier(self.smarts.as_str()),
            parse_stat_modifier(self.stealth.as_str()),
        )
    }

    pub fn format_triplet(&self) -> (r: String)
        ensures
            r@ == self.triplet(),
    {
        let mut s = format_stat_display(self.strength.as_str());
        push_char(&mut s, ',');
        let b = format_stat_display(self.smarts.as_str());
        push_str(&mut s, b.as_str());
        push_char(&mut s, ',');
        let c = format_stat_display(self.stealth.as_str());
        push_str(&mut s, c.as_str());
        assert(s@ =~= self.triplet());
        s
    }
}

#[derive(Debug)]
pub struct Item {
    pub id: u32,
    pub name: String,
    pub item_type: ItemType,
    pub subtype: String,
    pub stats: ItemStats,
    pub description: String,
    pub trigger: Option<String>,
    pub effect: Option<String>,
    /// Rarity tier name (`common`, `uncommon`, `rare`, `exceptional`).
    pub rarity: String,
    /// Sale price in dollars.
    pub value: u32,
}

#[derive(Debug)]
pub struct ItemSeed {
    pub item_type: ItemType,
    pub subtype: String,
    pub stats: ItemStats,
    pub trigger: Option<String>,
    pub effect: Option<String>,
    pub rarity: String,
}

/// A copy of an optional string.
pub fn clone_opt_string(o: &Option<String>) -> (r: Option<String>)
    ensures
        r == *o,
{
    match o {
        Some(s) => Some(s.clone()),
        None => None,
    }
}

impl Clone for Item {
    fn clone(&self) -> (r: Self)
        ensures
            r == *self,
    {
        Item {
            id: self.id,
            name: self.name.clone(),
            item_type: self.item_type,
            subtype: self.subtype.clone(),
            stats: self.stats.clone(),
            description: self.description.clone(),
            trigger: clone_opt_string(&self.trigger),
            effect: clone_opt_string(&self.effect),
            rarity: self.rarity.clone(),
            value: self.value,
        }
    }
}

impl Clone for ItemSeed {
    fn clone(&self) -> (r: Self)
        ensures
            r == *self,
    {
        ItemSeed {
            item_type: self.item_type,
            subtype: self.subtype.clone(),
            stats: self.stats.clone(),
            trigger: clone_opt_string(&self.trigger),
            effect: clone_opt_string(&self.effect),
            rarity: self.rarity.clone(),
        }
    }
}

/// `"Holding "` or `"Wearing "` followed by the description, for held and worn items.
pub open spec fn equipped_sentence(item: Item) -> Option<Seq<char>> {
    match item.item_type {
        ItemType::Weapon => Some("Holding "@ + item.description@),
        ItemType::Gear => Some("Wearing "@ + item.description@),
        ItemType::Misc => if item.subtype@ == "trinket"@ {
            Some("Wearing "@ + item.description@)
        } else {
            None
        },
    }
}

impl Item {
    /// e.g. "Wearing A pair of translucent clogs..."
    pub fn equipped_description_sentence(&self) -> (r: Option<String>)
        ensures
            match r {
                Some(s) => equipped_sentence(*self) == Some(s@),
                None => equipped_sentence(*self) is None,
            },
    {
        let verb = match self.item_type {
            ItemType::Weapon => "Holding ",
            ItemType::Gear => "Wearing ",
            ItemType::Misc => {
                if str_eq(self.subtype.as_str(), "trinket") {
                    "Wearing "
                } else {
                    return None;
                }
            },
        };
        Some(concat2(verb, self.description.as_str()))
    }
}

impl ItemSeed {
    /// The item this seed describes, named and described, with id and value still 0.
    pub fn into_item(self, name: String, description: String) -> (r: Item)
        ensures
            r.id == 0,
            r.name == name,
            r.item_type == self.item_type,
            r.subtype == self.subtype,
            r.stats == self.stats,
            r.description == description,
            r.trigger == self.trigger,
            r.effect == self.effect,
            r.rarity == self.rarity,
            r.value == 0,
    {
        Item {
            id: 0,
            name,
            item_type: self.item_type,
            subtype: self.subtype,
            stats: self.stats,
            description,
            trigger: self.trigger,
            effect: self.effect,
            rarity: self.rarity,
            value: 0,
        }
    }
}

#[derive(Debug, Clone, Copy, PartialEq, Eq, Structural)]
pub enum EquipmentSlot {
    Gear,
    Weapon,
    Misc0,
    Misc1,
}

impl EquipmentSlot {
    /// Every slot, in display order.
    pub fn all() -> (r: [EquipmentSlot; 4])
        ensures
            r@ == seq![
                EquipmentSlot::Gear,
                EquipmentSlot::Weapon,
                EquipmentSlot::Misc0,
                EquipmentSlot::Misc1,
            ],
    {
        let r = [EquipmentSlot::Gear, EquipmentSlot::Weapon, EquipmentSlot::Misc0, EquipmentSlot::Misc1];
        assert(r@ =~= seq![
            EquipmentSlot::Gear,
            EquipmentSlot::Weapon,
            EquipmentSlot::Misc0,
            EquipmentSlot::Misc1,
        ]);
        r
    }

    pub open spec fn label_spec(self) -> Seq<char> {
        match self {
            EquipmentSlot::Gear => "Gear"@,
            EquipmentSlot::Weapon => "Weapon"@,
            EquipmentSlot::Misc0 => "Misc 1"@,
            EquipmentSlot::Misc1 => "Misc 2"@,
        }
    }

    pub open spec fn suffix_spec(self) -> Seq<char> {
        match self {
            EquipmentSlot::Gear => "gear"@,
            EquipmentSlot::Weapon => "weapon"@,
            EquipmentSlot::Misc0 => "misc0"@,
            EquipmentSlot::Misc1 => "misc1"@,
        }
    }

    pub fn label(self) -> (r: &'static str)
        ensures
            r@ == self.label_spec(),
    {
        match self {
            EquipmentSlot::Gear => "Gear",
            EquipmentSlot::Weapon => "Weapon",
            EquipmentSlot::Misc0 => "Misc 1",
            EquipmentSlot::Misc1 => "Misc 2",
        }
    }

    pub fn custom_id_suffix(self) -> (r: &'static str)
        ensures
            r@ == self.suffix_spec(),
    {
        match self {
            EquipmentSlot::Gear => "gear",
            EquipmentSlot::Weapon => "weapon",
            EquipmentSlot::Misc0 => "misc0",
            EquipmentSlot::Misc1 => "misc1",
        }
    }

    pub fn parse_suffix(s: &str) -> (r: Option<Self>)
        ensures
            r == (if s@ == "gear"@ {
                Some(EquipmentSlot::Gear)
            } else if s@ == "weapon"@ {
                Some(EquipmentSlot::Weapon)
            } else if s@ == "misc0"@ {
                Some(EquipmentSlot::Misc0)
            } else if s@ == "misc1"@ {
                Some(EquipmentSlot::Misc1)
            } else {
                None
            }),
    {
        if str_eq(s, "gear") {
            Some(EquipmentSlot::Gear)
        } else if str_eq(s, "weapon") {
            Some(EquipmentSlot::Weapon)
        } else if str_eq(s, "misc0") {
            Some(EquipmentSlot::Misc0)
        } else if str_eq(s, "misc1") {
            Some(EquipmentSlot::Misc1)
        } else {
            None
        }
    }
}

} // verus!
