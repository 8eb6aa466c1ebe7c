use vstd::prelude::*;

use crate::item::{Item, ItemType, Encumbrance, Currency, weight_units, is_coin};

verus! {

#[derive(Debug, Clone, Copy, PartialEq, Eq, Hash, Structural)]
pub enum PlayerEquipSlot {
    LeftHand,
    RightHand,
    BothHands,
    Armor,
    CP,
    SP,
    EP,
    GP,
    PP,
}

impl PlayerEquipSlot {
    pub fn label(&self) -> (s: &'static str)
        ensures
            s@ == match *self {
                Self::LeftHand => "Left Hand"@,
                Self::RightHand => "Right Hand"@,
                Self::BothHands => "Both Hands"@,
                Self::Armor => "Armor"@,
                Self::CP => "CP"@,
                Self::SP => "SP"@,
                Self::EP => "EP"@,
                Self::GP => "GP"@,
                Self::PP => "PP"@,
            },
    {
        match self {
            Self::LeftHand => "Left Hand",
            Self::RightHand => "Right Hand",
            Self::BothHands => "Both Hands",
            Self::Armor => "Armor",
            Self::CP => "CP",
            Self::SP => "SP",
            Self::EP => "EP",
            Self::GP => "GP",
            Self::PP => "PP",
        }
    }
}

/// A character's belongings: the items in order, what is held and worn (as indexes into the
/// items), and where each kind of coin is kept. The weight is counted in six-thousandths of a stone.
pub struct PlayerInventory {
    total_weight: u128,
    items: Vec<Item>,
    pub left_hand: Option<usize>,
    pub right_hand: Option<usize>,
    pub armor: Option<usize>,
    /// The clothes worn; no index twice.
    pub clothes: Vec<usize>,
    cp: Option<usize>,
    sp: Option<usize>,
    ep: Option<usize>,
    gp: Option<usize>,
    pp: Option<usize>,
}

/// The weight of all of `s`.
pub open spec fn weight_sum(s: Seq<Item>) -> nat
    decreases s.len(),
{
    if s.len() == 0 { 0 } else { weight_sum(s.drop_last()) + s.last().weight() }
}

/// Where a slot points once the item at `index` is gone.
pub open spec fn slot_after_removal(o: Option<usize>, index: usize) -> Option<usize> {
    match o {
        Some(n) => if index < n { Some((n - 1) as usize) } else if index == n { None } else { Some(n) },
        None => None,
    }
}

/// Where a slot points once the items at `n` and `m` have traded places.
pub open spec fn slot_after_swap(o: Option<usize>, n: usize, m: usize) -> Option<usize> {
    match o {
        Some(i) => if i == n { Some(m) } else if i == m { Some(n) } else { Some(i) },
        None => None,
    }
}

/// `s` with the elements at `a` and `b` traded.
pub open spec fn swapped<T>(s: Seq<T>, a: int, b: int) -> Seq<T> {
    s.update(a, s[b]).update(b, s[a])
}

/// The worn clothes once the item at `index` is gone: that index leaves, and the indexes below
/// it step down by one (the rule the inventory has always followed).
pub open spec fn clothes_after_removal(c: Set<usize>, index: usize) -> Set<usize> {
    c.remove(index).map(|n: usize| if n < index { (n - 1) as usize } else { n })
}

pub open spec fn clothes_after_swap(c: Set<usize>, n: usize, m: usize) -> Set<usize> {
    let base = c.remove(n).remove(m);
    let with_m = if c.contains(n) { base.insert(m) } else { base };
    if c.contains(m) { with_m.insert(n) } else { with_m }
}

proof fn lemma_weight_push(s: Seq<Item>, x: Item)
    ensures
        weight_sum(s.push(x)) == weight_sum(s) + x.weight(),
{
    assert(s.push(x).drop_last() == s);
}

proof fn lemma_weight_update(s: Seq<Item>, i: int, x: Item)
    requires
        0 <= i < s.len(),
    ensures
        weight_sum(s.update(i, x)) + s[i].weight() == weight_sum(s) + x.weight(),
    decreases s.len(),
{
    let t = s.update(i, x);
    if i == s.len() - 1 {
        assert(t.drop_last() == s.drop_last());
    } else {
        lemma_weight_update(s.drop_last(), i, x);
        assert(t.drop_last() == s.drop_last().update(i, x));
    }
}

proof fn lemma_weight_remove(s: Seq<Item>, i: int)
    requires
        0 <= i < s.len(),
    ensures
        weight_sum(s.remove(i)) + s[i].weight() == weight_sum(s),
    decreases s.len(),
{
    if i == s.len() - 1 {
        assert(s.remove(i) == s.drop_last());
    } else {
        lemma_weight_remove(s.drop_last(), i);
        assert(s.remove(i).drop_last() == s.drop_last().remove(i));
        assert(s.remove(i).last() == s.last());
    }
}

proof fn lemma_weight_swap(s: Seq<Item>, a: int, b: int)
    requires
        0 <= a < s.len(),
        0 <= b < s.len(),
    ensures
        weight_sum(swapped(s, a, b)) == weight_sum(s),
{
    lemma_weight_update(s, a, s[b]);
    lemma_weight_update(s.update(a, s[b]), b, s[a]);
}

impl PlayerInventory {
    pub closed spec fn spec_items(self) -> Seq<Item> {
        self.items@
    }

    pub closed spec fn spec_weight(self) -> int {
        self.total_weight as int
    }

    /// Where the coins of kind `c` are kept.
    pub closed spec fn coin_slot(self, c: Currency) -> Option<usize> {
        match c {
            Currency::CP => self.cp,
            Currency::SP => self.sp,
            Currency::EP => self.ep,
            Currency::GP => self.gp,
            Currency::PP => self.pp,
        }
    }

    /// The clothes worn, as a set of indexes.
    pub closed spec fn clothes_set(self) -> Set<usize> {
        self.clothes@.to_set()
    }

    /// The clothes worn, in their order.
    pub closed spec fn clothes_seq(self) -> Seq<usize> {
        self.clothes@
    }

    pub closed spec fn left(self) -> Option<usize> {
        self.left_hand
    }

    pub closed spec fn right(self) -> Option<usize> {
        self.right_hand
    }

    pub closed spec fn worn_armor(self) -> Option<usize> {
        self.armor
    }

    /// The weight is that of all the items, and each coin slot is empty or points at an item
    /// that weighs as treasure.
    pub closed spec fn wf(self) -> bool {
        &&& self.total_weight == weight_sum(self.items@)
        &&& forall|c: Currency| coin_slot_ok(self.items@, #[trigger] self.coin_slot(c))
    }

    pub fn empty() -> (inv: Self)
        ensures
            inv.wf(),
            inv.spec_items().len() == 0,
            inv.spec_weight() == 0,
            inv.left() is None,
            inv.right() is None,
            inv.worn_armor() is None,
            inv.clothes_seq().len() == 0,
            forall|c: Currency| #[trigger] inv.coin_slot(c) is None,
    {
        Self {
            total_weight: 0,
            items: Vec::new(),
            left_hand: None,
            right_hand: None,
            armor: None,
            clothes: Vec::new(),
            cp: None,
            sp: None,
            ep: None,
            gp: None,
            pp: None,
        }
    }

    /// The items, in order.
    pub fn items(&self) -> (items: &Vec<Item>)
        ensures
            items@ == self.spec_items(),
    {
        &self.items
    }

    /// The index of what is in the slot.
    pub closed spec fn slot_index(self, slot: PlayerEquipSlot) -> Option<usize> {
        match slot {
            PlayerEquipSlot::LeftHand => self.left_hand,
            PlayerEquipSlot::RightHand | PlayerEquipSlot::BothHands => self.right_hand,
            PlayerEquipSlot::Armor => self.armor,
            PlayerEquipSlot::CP => self.coin_slot(Currency::CP),
            PlayerEquipSlot::SP => self.coin_slot(Currency::SP),
            PlayerEquipSlot::EP => self.coin_slot(Currency::EP),
            PlayerEquipSlot::GP => self.coin_slot(Currency::GP),
            PlayerEquipSlot::PP => self.coin_slot(Currency::PP),
        }
    }

    /// The item in a slot, if the slot holds the index of an item.
    pub fn get_equip_slot(&self, slot: PlayerEquipSlot) -> (item: Option<&Item>)
        ensures
            match self.slot_index(slot) {
                Some(i) => if i < self.spec_items().len() { item == Some(&self.spec_items()[i as int]) } else { item is None },
                None => item is None,
            },
    {
        let index = match slot {
            PlayerEquipSlot::LeftHand => self.left_hand,
            PlayerEquipSlot::RightHand | PlayerEquipSlot::BothHands => self.right_hand,
            PlayerEquipSlot::Armor => self.armor,
            PlayerEquipSlot::CP => self.cp,
            PlayerEquipSlot::SP => self.sp,
            PlayerEquipSlot::EP => self.ep,
            PlayerEquipSlot::GP => self.gp,
            PlayerEquipSlot::PP => self.pp,
        };
        match index {
            Some(i) => if i < self.items.len() { Some(&self.items[i]) } else { None },
            None => None,
        }
    }

    /// The worn clothes that are items of the inventory (their indexes, in the order they were put on).
    pub fn worn_clothes(&self) -> (worn: Vec<usize>)
        ensures
            worn@ == self.clothes_seq().filter(|i: usize| i < self.spec_items().len()),
    {
        let mut worn: Vec<usize> = Vec::new();
        let n = self.clothes.len();
        let ghost valid = |i: usize| i < self.items@.len();
        for j in 0..n
            invariant
                n == self.clothes@.len(),
                valid == (|i: usize| i < self.items@.len()),
                worn@ == self.clothes@.take(j as int).filter(valid),
        {
            proof {
                reveal_with_fuel(Seq::<_>::filter, 1);
                assert(self.clothes@.take(j + 1).drop_last() == self.clothes@.take(j as int));
            }
            let i = self.clothes[j];
            if i < self.items.len() {
                worn.push(i);
            }
        }
        assert(self.clothes@.take(n as int) == self.clothes@);
        worn
    }

    /// The total weight, in six-thousandths of a stone.
    pub fn total_weight(&self) -> (w: u128)
        ensures
            w == self.spec_weight(),
    {
        self.total_weight
    }

    /// Adds an item. Coins (items tagged "pp", "gp", "ep", "sp" or "cp", checked in that order)
    /// join the stack of their kind instead.
    pub fn add(&mut self, item: Item)
        requires
            old(self).wf(),
            old(self).spec_weight() + added_weight(item) <= u128::MAX,
            forall|c: Currency| stack_has_room(old(self).spec_items(), #[trigger] old(self).coin_slot(c), item.count as int),
        ensures
            final(self).wf(),
            match coin_kind(item.item_type) {
                Some(c) => added_coins(*old(self), *final(self), c, item.count),
                None => final(self).spec_items() == old(self).spec_items().push(item)
                    && final(self).spec_weight() == old(self).spec_weight() + item.weight()
                    && same_slots(*old(self), *final(self)),
            },
    {
        if item.item_type.tagged("pp") {
            self.add_currency(Currency::PP, item.count);
            return;
        }
        if item.item_type.tagged("gp") {
            self.add_currency(Currency::GP, item.count);
            return;
        }
        if item.item_type.tagged("ep") {
            self.add_currency(Currency::EP, item.count);
            return;
        }
        if item.item_type.tagged("sp") {
            self.add_currency(Currency::SP, item.count);
            return;
        }
        if item.item_type.tagged("cp") {
            self.add_currency(Currency::CP, item.count);
            return;
        }
        let w = item.item_type.encumbrance.units() as u128 * item.count as u128;
        proof { lemma_weight_push(self.items@, item); }
        self.total_weight = self.total_weight + w;
        self.items.push(item);
        proof {
            assert forall|c: Currency| coin_slot_ok(self.items@, #[trigger] self.coin_slot(c)) by {
                assert(old(self).coin_slot(c) == self.coin_slot(c));
                assert(coin_slot_ok(old(self).items@, old(self).coin_slot(c)));
                if let Some(i) = self.coin_slot(c) {
                    assert(self.items@[i as int] == old(self).items@[i as int]);
                }
            }
        }
    }

    fn set_coin_slot(&mut self, c: Currency, i: usize)
        ensures
            final(self).coin_slot(c) == Some(i),
            forall|d: Currency| d != c ==> #[trigger] final(self).coin_slot(d) == old(self).coin_slot(d),
            final(self).spec_items() == old(self).spec_items(),
            final(self).spec_weight() == old(self).spec_weight(),
            final(self).left() == old(self).left(),
            final(self).right() == old(self).right(),
            final(self).worn_armor() == old(self).worn_armor(),
            final(self).clothes_seq() == old(self).clothes_seq(),
    {
        match c {
            Currency::CP => self.cp = Some(i),
            Currency::SP => self.sp = Some(i),
            Currency::EP => self.ep = Some(i),
            Currency::GP => self.gp = Some(i),
            Currency::PP => self.pp = Some(i),
        }
    }

    fn get_coin_slot(&self, c: Currency) -> (o: Option<usize>)
        ensures
            o == self.coin_slot(c),
    {
        match c {
            Currency::CP => self.cp,
            Currency::SP => self.sp,
            Currency::EP => self.ep,
            Currency::GP => self.gp,
            Currency::PP => self.pp,
        }
    }

    fn add_currency(&mut self, currency: Currency, amount: u32)
        requires
            old(self).wf(),
            old(self).spec_weight() + 6 * amount <= u128::MAX,
            stack_has_room(old(self).spec_items(), old(self).coin_slot(currency), amount as int),
        ensures
            final(self).wf(),
            added_coins(*old(self), *final(self), currency, amount),
    {
        let w = 6u128 * amount as u128;
        match self.get_coin_slot(currency) {
            Some(i) => {
                if i < self.items.len() {
                    let ghost before = self.items@;
                    proof { assert(coin_slot_ok(before, old(self).coin_slot(currency))); }
                    let mut it = self.items.remove(i);
                    let ghost old_item = it;
                    it.count = it.count + amount;
                    self.items.insert(i, it);
                    proof {
                        assert(self.items@ == before.update(i as int, it));
                        lemma_weight_update(before, i as int, it);
                        assert(old_item.item_type.encumbrance == Encumbrance::Treasure);
                        assert(it.weight() == 6 * (old_item.count + amount));
                        assert(old_item.weight() == 6 * old_item.count);
                    }
                    self.total_weight = self.total_weight + w;
                    proof {
                        assert forall|c: Currency| coin_slot_ok(self.items@, #[trigger] self.coin_slot(c)) by {
                            assert(self.coin_slot(c) == old(self).coin_slot(c));
                            assert(coin_slot_ok(old(self).items@, old(self).coin_slot(c)));
                        }
                    }
                    return;
                }
            },
            None => {},
        }
        proof { assert(coin_slot_ok(self.items@, old(self).coin_slot(currency))); }
        let n = self.items.len();
        self.set_coin_slot(currency, n);
        let ghost mid = *self;
        let coin = Item { item_type: ItemType::coin(currency), count: amount };
        proof { lemma_weight_push(self.items@, coin); }
        self.items.push(coin);
        self.total_weight = self.total_weight + w;
        proof {
            assert forall|c: Currency| coin_slot_ok(self.items@, #[trigger] self.coin_slot(c)) by {
                if c != currency {
                    assert(mid.coin_slot(c) == old(self).coin_slot(c));
                    assert(self.coin_slot(c) == old(self).coin_slot(c));
                    assert(coin_slot_ok(old(self).items@, old(self).coin_slot(c)));
                    if let Some(k) = self.coin_slot(c) {
                        assert(self.items@[k as int] == old(self).items@[k as int]);
                    }
                }
            }
            assert forall|d: Currency| d != currency implies #[trigger] self.coin_slot(d) == old(self).coin_slot(d) by {
                assert(mid.coin_slot(d) == old(self).coin_slot(d));
            }
            assert(self.coin_slot(currency) == Some(old(self).items@.len() as usize));
            assert(self.items@.drop_last() == old(self).items@);
            assert(self.items@.last() == coin);
            assert(is_coin(coin.item_type, currency));
            assert(self.total_weight == old(self).total_weight + 6 * amount);
        }
    }
}

/// The weight an item adds: coins always weigh as treasure.
pub open spec fn added_weight(item: Item) -> int {
    if coin_kind(item.item_type) is Some { 6 * item.count } else { item.weight() as int }
}

/// An empty coin slot, or one at an item that weighs as treasure.
pub open spec fn coin_slot_ok(items: Seq<Item>, o: Option<usize>) -> bool {
    match o {
        Some(i) => i < items.len() && items[i as int].item_type.encumbrance == Encumbrance::Treasure,
        None => true,
    }
}

/// Whether the stack a slot points at can take `amount` more.
pub open spec fn stack_has_room(items: Seq<Item>, o: Option<usize>, amount: int) -> bool {
    match o {
        Some(i) => i < items.len() ==> items[i as int].count + amount <= u32::MAX,
        None => true,
    }
}

impl PlayerInventory {
    /// `b` is `a` with the items at `x` and `y` traded, and every slot following its item.
    pub open spec fn swapped_from(b: PlayerInventory, a: PlayerInventory, x: usize, y: usize) -> bool {
        &&& b.spec_items() == swapped(a.spec_items(), x as int, y as int)
        &&& b.spec_weight() == a.spec_weight()
        &&& b.left() == slot_after_swap(a.left(), x, y)
        &&& b.right() == slot_after_swap(a.right(), x, y)
        &&& b.worn_armor() == slot_after_swap(a.worn_armor(), x, y)
        &&& forall|c: Currency| #[trigger] b.coin_slot(c) == slot_after_swap(a.coin_slot(c), x, y)
        &&& b.clothes_set() == clothes_after_swap(a.clothes_set(), x, y)
    }

    /// `b` is `a` after the item at `index` was taken out.
    pub open spec fn removed_from(b: PlayerInventory, a: PlayerInventory, index: usize) -> bool {
        &&& b.spec_items() == a.spec_items().remove(index as int)
        &&& b.spec_weight() == a.spec_weight() - a.spec_items()[index as int].weight()
        &&& b.left() == slot_after_removal(a.left(), index)
        &&& b.right() == slot_after_removal(a.right(), index)
        &&& b.worn_armor() == slot_after_removal(a.worn_armor(), index)
        &&& forall|c: Currency| #[trigger] b.coin_slot(c) == slot_after_removal(a.coin_slot(c), index)
        &&& b.clothes_set() == clothes_after_removal(a.clothes_set(), index)
    }

    /// Takes out the item at `index`, if there is one; the slots after it move down with it.
    pub fn remove(&mut self, index: usize) -> (removed: Option<Item>)
        requires
            old(self).wf(),
            index < old(self).spec_items().len() && index > 0 ==> !old(self).clothes_set().contains(0),
        ensures
            final(self).wf(),
            index < old(self).spec_items().len() ==> removed == Some(old(self).spec_items()[index as int])
                && Self::removed_from(*final(self), *old(self), index),
            index >= old(self).spec_items().len() ==> removed is None && *final(self) == *old(self),
    {
        if index < self.items.len() {
            let ghost before = self.items@;
            let item = self.items.remove(index);
            proof { lemma_weight_remove(before, index as int); }
            self.total_weight = self.total_weight - item.item_type.encumbrance.units() as u128 * item.count as u128;
            self.fix_indexes(index);
            proof {
                assert forall|c: Currency| coin_slot_ok(self.items@, #[trigger] self.coin_slot(c)) by {
                    assert(coin_slot_ok(before, old(self).coin_slot(c)));
                    if let Some(k) = self.coin_slot(c) {
                        if let Some(k0) = old(self).coin_slot(c) {
                            if index < k0 {
                                assert(self.items@[k as int] == before[k0 as int]);
                            } else {
                                assert(self.items@[k as int] == before[k0 as int]);
                            }
                        }
                    }
                }
            }
            return Some(item);
        }
        None
    }

    /// Makes every slot follow the items once the item at `index` is gone.
    fn fix_indexes(&mut self, index: usize)
        requires
            index > 0 ==> !old(self).clothes_set().contains(0),
        ensures
            final(self).spec_items() == old(self).spec_items(),
            final(self).spec_weight() == old(self).spec_weight(),
            final(self).left() == slot_after_removal(old(self).left(), index),
            final(self).right() == slot_after_removal(old(self).right(), index),
            final(self).worn_armor() == slot_after_removal(old(self).worn_armor(), index),
            forall|c: Currency| #[trigger] final(self).coin_slot(c) == slot_after_removal(old(self).coin_slot(c), index),
            final(self).clothes_set() == clothes_after_removal(old(self).clothes_set(), index),
    {
        self.left_hand = fix_slot(self.left_hand, index);
        self.right_hand = fix_slot(self.right_hand, index);
        self.armor = fix_slot(self.armor, index);
        self.cp = fix_slot(self.cp, index);
        self.sp = fix_slot(self.sp, index);
        self.ep = fix_slot(self.ep, index);
        self.gp = fix_slot(self.gp, index);
        self.pp = fix_slot(self.pp, index);
        let ghost old_set = old(self).clothes@.to_set();
        let ghost f = |n: usize| if n < index { (n - 1) as usize } else { n };
        let mut kept: Vec<usize> = Vec::new();
        let n = self.clothes.len();
        for j in 0..n
            invariant
                n == self.clothes@.len(),
                self.clothes == old(self).clothes,
                old_set == old(self).clothes@.to_set(),
                index > 0 ==> !old_set.contains(0),
                f == (|n: usize| if n < index { (n - 1) as usize } else { n }),
                forall|x: usize| kept@.contains(x) <==> exists|k: int| 0 <= k < j && self.clothes@[k] != index && #[trigger] f(self.clothes@[k]) == x,
        {
            let c = self.clothes[j];
            let ghost before = kept@;
            if c != index {
                proof { assert(old_set.contains(c)) by { assert(self.clothes@[j as int] == c); } }
                let m = if c < index { c - 1 } else { c };
                if !contains_index(&kept, m) {
                    kept.push(m);
                }
                assert forall|x: usize| kept@.contains(x) <==> exists|k: int| 0 <= k < j + 1 && self.clothes@[k] != index && #[trigger] f(self.clothes@[k]) == x by {
                    if kept@.contains(x) && !before.contains(x) {
                        assert(f(self.clothes@[j as int]) == x);
                    }
                    if exists|k: int| 0 <= k < j + 1 && self.clothes@[k] != index && #[trigger] f(self.clothes@[k]) == x {
                        let k = choose|k: int| 0 <= k < j + 1 && self.clothes@[k] != index && #[trigger] f(self.clothes@[k]) == x;
                        if k == j {
                            if !before.contains(x) {
                                assert(kept@[kept@.len() - 1] == x);
                            }
                        } else {
                            assert(before.contains(x));
                            let w = choose|w: int| 0 <= w < before.len() && before[w] == x;
                            assert(kept@[w] == x);
                        }
                    }
                    if kept@.contains(x) && before.contains(x) {
                    }
                }
            } else {
                assert forall|x: usize| kept@.contains(x) <==> exists|k: int| 0 <= k < j + 1 && self.clothes@[k] != index && #[trigger] f(self.clothes@[k]) == x by {
                    if exists|k: int| 0 <= k < j + 1 && self.clothes@[k] != index && #[trigger] f(self.clothes@[k]) == x {
                        let k = choose|k: int| 0 <= k < j + 1 && self.clothes@[k] != index && #[trigger] f(self.clothes@[k]) == x;
                        assert(k != j);
                    }
                }
            }
        }
        self.clothes = kept;
        proof {
            let target = clothes_after_removal(old_set, index);
            assert forall|x: usize| self.clothes@.to_set().contains(x) <==> target.contains(x) by {
                if self.clothes@.contains(x) {
                    let k = choose|k: int| 0 <= k < n && old(self).clothes@[k] != index && #[trigger] f(old(self).clothes@[k]) == x;
                    assert(old_set.remove(index).contains(old(self).clothes@[k]));
                }
                if target.contains(x) {
                    let y = choose|y: usize| old_set.remove(index).contains(y) && f(y) == x;
                    let k = choose|k: int| 0 <= k < old(self).clothes@.len() && old(self).clothes@[k] == y;
                    assert(f(old(self).clothes@[k]) == x);
                }
            }
            assert(self.clothes@.to_set() =~= target);
        }
    }

    /// Moves the item at `index` one place up (toward the start), with the slots that point at it.
    pub fn move_up(&mut self, index: usize)
        requires
            old(self).wf(),
        ensures
            final(self).wf(),
            0 < index < old(self).spec_items().len() ==> Self::swapped_from(*final(self), *old(self), index, (index - 1) as usize),
            !(0 < index < old(self).spec_items().len()) ==> *final(self) == *old(self),
    {
        if index == 0 {
            return;
        }
        if index < self.items.len() {
            self.swap_items(index - 1);
            self.swap_indexes(index, index - 1);
            proof {
                assert(self.items@ =~= swapped(old(self).items@, index as int, index - 1));
                self.lemma_swap_wf(*old(self), index, (index - 1) as usize);
            }
        }
    }

    /// Moves the item at `index` one place down (toward the end), with the slots that point at it.
    pub fn move_down(&mut self, index: usize)
        requires
            old(self).wf(),
            old(self).spec_items().len() > 0,
        ensures
            final(self).wf(),
            index + 1 < old(self).spec_items().len() ==> Self::swapped_from(*final(self), *old(self), index, (index + 1) as usize),
            !(index + 1 < old(self).spec_items().len()) ==> *final(self) == *old(self),
    {
        if index < self.items.len() - 1 {
            self.swap_items(index);
            self.swap_indexes(index, index + 1);
            proof { self.lemma_swap_wf(*old(self), index, (index + 1) as usize); }
        }
    }

    proof fn lemma_swap_wf(self, before: PlayerInventory, x: usize, y: usize)
        requires
            before.wf(),
            x < before.spec_items().len(),
            y < before.spec_items().len(),
            Self::swapped_from(self, before, x, y),
            self.total_weight == self.spec_weight(),
        ensures
            self.wf(),
    {
        lemma_weight_swap(before.items@, x as int, y as int);
        assert forall|c: Currency| coin_slot_ok(self.items@, #[trigger] self.coin_slot(c)) by {
            assert(coin_slot_ok(before.items@, before.coin_slot(c)));
        }
    }

    /// Trades the items at `i` and `i + 1`.
    fn swap_items(&mut self, i: usize)
        requires
            i + 1 < old(self).spec_items().len(),
        ensures
            final(self).spec_items() == swapped(old(self).spec_items(), i as int, i + 1),
            final(self).spec_weight() == old(self).spec_weight(),
            final(self).left() == old(self).left(),
            final(self).right() == old(self).right(),
            final(self).worn_armor() == old(self).worn_armor(),
            forall|c: Currency| #[trigger] final(self).coin_slot(c) == old(self).coin_slot(c),
            final(self).clothes_seq() == old(self).clothes_seq(),
    {
        let ghost before = self.items@;
        let len = self.items.len();
        assert(i + 1 < len);
        let next = self.items.remove(i + 1);
        self.items.insert(i, next);
        assert(self.items@ =~= swapped(before, i as int, i + 1));
    }

    /// Makes every slot follow two items that traded places.
    fn swap_indexes(&mut self, n: usize, m: usize)
        ensures
            final(self).spec_items() == old(self).spec_items(),
            final(self).spec_weight() == old(self).spec_weight(),
            final(self).total_weight == old(self).total_weight,
            final(self).left() == slot_after_swap(old(self).left(), n, m),
            final(self).right() == slot_after_swap(old(self).right(), n, m),
            final(self).worn_armor() == slot_after_swap(old(self).worn_armor(), n, m),
            forall|c: Currency| #[trigger] final(self).coin_slot(c) == slot_after_swap(old(self).coin_slot(c), n, m),
            final(self).clothes_set() == clothes_after_swap(old(self).clothes_set(), n, m),
    {
        self.left_hand = swap_slot(self.left_hand, n, m);
        self.right_hand = swap_slot(self.right_hand, n, m);
        self.armor = swap_slot(self.armor, n, m);
        self.cp = swap_slot(self.cp, n, m);
        self.sp = swap_slot(self.sp, n, m);
        self.ep = swap_slot(self.ep, n, m);
        self.gp = swap_slot(self.gp, n, m);
        self.pp = swap_slot(self.pp, n, m);
        let had_n = contains_index(&self.clothes, n);
        let had_m = contains_index(&self.clothes, m);
        let mut kept: Vec<usize> = Vec::new();
        let len = self.clothes.len();
        for j in 0..len
            invariant
                len == self.clothes@.len(),
                self.clothes == old(self).clothes,
                forall|x: usize| kept@.contains(x) <==> (x != n && x != m && exists|k: int| 0 <= k < j && self.clothes@[k] == x),
        {
            let c = self.clothes[j];
            let ghost before = kept@;
            if c != n && c != m {
                kept.push(c);
            }
            assert forall|x: usize| kept@.contains(x) <==> (x != n && x != m && exists|k: int| 0 <= k < j + 1 && self.clothes@[k] == x) by {
                if x != n && x != m && exists|k: int| 0 <= k < j + 1 && self.clothes@[k] == x {
                    let k = choose|k: int| 0 <= k < j + 1 && self.clothes@[k] == x;
                    if k == j {
                        assert(kept@[kept@.len() - 1] == x);
                    } else {
                        assert(before.contains(x));
                        let w = choose|w: int| 0 <= w < before.len() && before[w] == x;
                        assert(kept@[w] == x);
                    }
                }
                if kept@.contains(x) {
                    let w = choose|w: int| 0 <= w < kept@.len() && kept@[w] == x;
                    if w < before.len() {
                        assert(before[w] == x);
                        assert(before.contains(x));
                    } else {
                        assert(self.clothes@[j as int] == x);
                    }
                }
            }
        }
        let ghost k0 = kept@;
        if had_n {
            kept.push(m);
        }
        if had_m && !(had_n && n == m) {
            kept.push(n);
        }
        self.clothes = kept;
        proof {
            let old_set = old(self).clothes@.to_set();
            let s = self.clothes@;
            let target = clothes_after_swap(old_set, n, m);
            assert(forall|x: usize| k0.contains(x) <==> (x != n && x != m && old(self).clothes@.contains(x)));
            assert(forall|w: int| 0 <= w < k0.len() ==> s[w] == k0[w]);
            assert(forall|w: int| k0.len() <= w < s.len() ==> (s[w] == m || s[w] == n));
            assert(had_n ==> s[k0.len() as int] == m);
            assert(had_m && !(had_n && n == m) ==> s[s.len() - 1] == n);
            assert forall|x: usize| s.contains(x) <==> target.contains(x) by {
                if s.contains(x) {
                    let w = choose|w: int| 0 <= w < s.len() && s[w] == x;
                    if w < k0.len() {
                        assert(k0[w] == x);
                        assert(k0.contains(x));
                    }
                }
                if x != n && x != m && old_set.contains(x) {
                    assert(k0.contains(x));
                    let w = choose|w: int| 0 <= w < k0.len() && k0[w] == x;
                    assert(s[w] == x);
                }
            }
            assert(s.to_set() =~= target);
        }
    }

    pub fn equip(&mut self, slot: PlayerEquipSlot, index: usize)
        ensures
            final(self).spec_items() == old(self).spec_items(),
            final(self).spec_weight() == old(self).spec_weight(),
            final(self).wf() == old(self).wf(),
            forall|c: Currency| #[trigger] final(self).coin_slot(c) == old(self).coin_slot(c),
            final(self).clothes_seq() == old(self).clothes_seq(),
            final(self).left() == match slot {
                PlayerEquipSlot::LeftHand | PlayerEquipSlot::BothHands => Some(index),
                _ => old(self).left(),
            },
            final(self).right() == match slot {
                PlayerEquipSlot::RightHand | PlayerEquipSlot::BothHands => Some(index),
                _ => old(self).right(),
            },
            final(self).worn_armor() == match slot {
                PlayerEquipSlot::Armor => Some(index),
                _ => old(self).worn_armor(),
            },
    {
        match slot {
            PlayerEquipSlot::LeftHand => {
                self.left_hand = Some(index);
            },
            PlayerEquipSlot::RightHand => {
                self.right_hand = Some(index);
            },
            PlayerEquipSlot::BothHands => {
                self.left_hand = Some(index);
                self.right_hand = Some(index);
            },
            PlayerEquipSlot::Armor => {
                self.armor = Some(index);
            },
            _ => {},
        }
        proof { self.lemma_same_coins_wf(*old(self)); }
    }

    pub fn unequip(&mut self, slot: PlayerEquipSlot)
        ensures
            final(self).spec_items() == old(self).spec_items(),
            final(self).spec_weight() == old(self).spec_weight(),
            final(self).wf() == old(self).wf(),
            forall|c: Currency| #[trigger] final(self).coin_slot(c) == old(self).coin_slot(c),
            final(self).clothes_seq() == old(self).clothes_seq(),
            final(self).left() == match slot {
                PlayerEquipSlot::LeftHand | PlayerEquipSlot::BothHands => None,
                _ => old(self).left(),
            },
            final(self).right() == match slot {
                PlayerEquipSlot::RightHand | PlayerEquipSlot::BothHands => None,
                _ => old(self).right(),
            },
            final(self).worn_armor() == match slot {
                PlayerEquipSlot::Armor => None,
                _ => old(self).worn_armor(),
            },
    {
        match slot {
            PlayerEquipSlot::LeftHand => {
                self.left_hand = None;
            },
            PlayerEquipSlot::RightHand => {
                self.right_hand = None;
            },
            PlayerEquipSlot::BothHands => {
                self.left_hand = None;
                self.right_hand = None;
            },
            PlayerEquipSlot::Armor => {
                self.armor = None;
            },
            _ => {},
        }
        proof { self.lemma_same_coins_wf(*old(self)); }
    }

    proof fn lemma_same_coins_wf(self, before: PlayerInventory)
        requires
            self.items == before.items,
            self.total_weight == before.total_weight,
            self.cp == before.cp,
            self.sp == before.sp,
            self.ep == before.ep,
            self.gp == before.gp,
            self.pp == before.pp,
        ensures
            self.wf() == before.wf(),
            forall|c: Currency| #[trigger] self.coin_slot(c) == before.coin_slot(c),
    {
        assert forall|c: Currency| #[trigger] self.coin_slot(c) == before.coin_slot(c) by {}
        if before.wf() {
            assert forall|c: Currency| coin_slot_ok(self.items@, #[trigger] self.coin_slot(c)) by {
                assert(coin_slot_ok(before.items@, before.coin_slot(c)));
            }
        }
        if self.wf() {
            assert forall|c: Currency| coin_slot_ok(before.items@, #[trigger] before.coin_slot(c)) by {
                assert(coin_slot_ok(self.items@, self.coin_slot(c)));
            }
        }
    }

    /// Which hands hold the item at `index`.
    pub open spec fn held_in(self, index: usize) -> Option<PlayerEquipSlot> {
        let r = self.right() == Some(index);
        let l = self.left() == Some(index);
        if r && l {
            Some(PlayerEquipSlot::BothHands)
        } else if r {
            Some(PlayerEquipSlot::RightHand)
        } else if l {
            Some(PlayerEquipSlot::LeftHand)
        } else {
            None
        }
    }

    pub fn is_equipped(&self, index: usize) -> (slot: Option<PlayerEquipSlot>)
        ensures
            slot == self.held_in(index),
    {
        let mut is_right = false;
        let mut is_left = false;
        if let Some(right) = self.right_hand {
            if right == index {
                is_right = true;
            }
        }
        if let Some(left) = self.left_hand {
            if left == index {
                is_left = true;
            }
        }
        if is_right && is_left {
            Some(PlayerEquipSlot::BothHands)
        } else if is_right {
            Some(PlayerEquipSlot::RightHand)
        } else if is_left {
            Some(PlayerEquipSlot::LeftHand)
        } else {
            None
        }
    }
}

fn fix_slot(o: Option<usize>, index: usize) -> (r: Option<usize>)
    ensures
        r == slot_after_removal(o, index),
{
    match o {
        Some(n) => if index < n { Some(n - 1) } else if index == n { None } else { Some(n) },
        None => None,
    }
}

fn swap_slot(o: Option<usize>, n: usize, m: usize) -> (r: Option<usize>)
    ensures
        r == slot_after_swap(o, n, m),
{
    match o {
        Some(i) => if i == n { Some(m) } else if i == m { Some(n) } else { Some(i) },
        None => None,
    }
}

fn contains_index(v: &Vec<usize>, x: usize) -> (b: bool)
    ensures
        b == v@.contains(x),
{
    let n = v.len();
    for j in 0..n
        invariant
            n == v@.len(),
            forall|k: int| 0 <= k < j ==> v@[k] != x,
    {
        if v[j] == x {
            assert(v@[j as int] == x);
            return true;
        }
    }
    false
}

/// Moving an item down and then back up leaves the inventory as it was: the same items in the
/// same order, the same weight, and every slot where it was.
pub proof fn move_down_then_up_restores(a: PlayerInventory, b: PlayerInventory, c: PlayerInventory, i: usize)
    requires
        i + 1 < a.spec_items().len(),
        PlayerInventory::swapped_from(b, a, i, (i + 1) as usize),
        PlayerInventory::swapped_from(c, b, (i + 1) as usize, i),
    ensures
        c.spec_items() == a.spec_items(),
        c.spec_weight() == a.spec_weight(),
        c.left() == a.left(),
        c.right() == a.right(),
        c.worn_armor() == a.worn_armor(),
        forall|k: Currency| #[trigger] c.coin_slot(k) == a.coin_slot(k),
        c.clothes_set() == a.clothes_set(),
{
    assert(c.spec_items() =~= a.spec_items());
    assert forall|k: Currency| #[trigger] c.coin_slot(k) == a.coin_slot(k) by {
        assert(b.coin_slot(k) == slot_after_swap(a.coin_slot(k), i, (i + 1) as usize));
    }
    assert(c.clothes_set() =~= a.clothes_set());
}

/// Adding an item that is not a coin and then taking out the last item leaves the same items,
/// the same weight, and every slot that pointed at an item where it was.
pub proof fn add_then_remove_last_restores(a: PlayerInventory, b: PlayerInventory, c: PlayerInventory, item: Item)
    requires
        a.wf(),
        a.spec_items().len() < usize::MAX,
        coin_kind(item.item_type) is None,
        b.spec_items() == a.spec_items().push(item),
        b.spec_weight() == a.spec_weight() + item.weight(),
        same_slots(a, b),
        PlayerInventory::removed_from(c, b, a.spec_items().len() as usize),
    ensures
        c.spec_items() == a.spec_items(),
        c.spec_weight() == a.spec_weight(),
        a.left() matches Some(n) && n < a.spec_items().len() ==> c.left() == a.left(),
        a.right() matches Some(n) && n < a.spec_items().len() ==> c.right() == a.right(),
        a.worn_armor() matches Some(n) && n < a.spec_items().len() ==> c.worn_armor() == a.worn_armor(),
{
    let n = a.spec_items().len() as int;
    assert(b.spec_items()[n] == item);
    assert(b.spec_items().remove(n) =~= a.spec_items());
}

/// Whatever the inventory held, equipping an item in both hands makes it held in both.
pub proof fn equip_both_hands_holds(b: PlayerInventory, index: usize)
    requires
        b.left() == Some(index),
        b.right() == Some(index),
    ensures
        b.held_in(index) == Some(PlayerEquipSlot::BothHands),
{
}

/// The first coin kind, from platinum down to copper, whose tag the item carries.
pub open spec fn coin_kind(t: ItemType) -> Option<Currency> {
    if t.has_tag("pp"@) { Some(Currency::PP) }
    else if t.has_tag("gp"@) { Some(Currency::GP) }
    else if t.has_tag("ep"@) { Some(Currency::EP) }
    else if t.has_tag("sp"@) { Some(Currency::SP) }
    else if t.has_tag("cp"@) { Some(Currency::CP) }
    else { None }
}

/// Every slot is as it was.
pub open spec fn same_slots(a: PlayerInventory, b: PlayerInventory) -> bool {
    &&& b.left() == a.left()
    &&& b.right() == a.right()
    &&& b.worn_armor() == a.worn_armor()
    &&& b.clothes_seq() == a.clothes_seq()
    &&& forall|c: Currency| #[trigger] b.coin_slot(c) == a.coin_slot(c)
}

/// `amount` coins of kind `c` went onto the stack of that kind, or onto a new stack at the end
/// when the slot pointed at no item; the weight grew by a thousandth of a stone per coin.
pub open spec fn added_coins(a: PlayerInventory, b: PlayerInventory, c: Currency, amount: u32) -> bool {
    &&& b.spec_weight() == a.spec_weight() + 6 * amount
    &&& b.left() == a.left()
    &&& b.right() == a.right()
    &&& b.worn_armor() == a.worn_armor()
    &&& b.clothes_seq() == a.clothes_seq()
    &&& forall|d: Currency| d != c ==> #[trigger] b.coin_slot(d) == a.coin_slot(d)
    &&& match a.coin_slot(c) {
        Some(i) if i < a.spec_items().len() => {
            &&& b.coin_slot(c) == Some(i)
            &&& b.spec_items() == a.spec_items().update(i as int,
                Item { count: (a.spec_items()[i as int].count + amount) as u32, ..a.spec_items()[i as int] })
        },
        _ => {
            &&& b.coin_slot(c) == Some(a.spec_items().len() as usize)
            &&& b.spec_items().len() == a.spec_items().len() + 1
            &&& b.spec_items().drop_last() == a.spec_items()
            &&& b.spec_items().last().count == amount
            &&& is_coin(b.spec_items().last().item_type, c)
        },
    }
}

} // verus!
