//! The game state: one bounded pool per instance class, and the NPCs' inventories.

use crate::instances::{
    Focus, Info, InstanceClass, Item, ItemReact, Menu, MenuItem, Mission, MusicTheme, Npc,
    ParticleEffect, SoundEffect,
};
use crate::object_allocator::{AllocError, Handle, ObjectAllocator};
use crate::sym_table::copy_bytes;
use crate::vm::{ExternalHost, VirtualMachine};
use vstd::prelude::*;

verus! {

pub const MAX_NUM_MISC: usize = 1024;

pub const MAX_NUM_NPCS: usize = 12000;

pub const MAX_NUM_ITEMS: usize = 12000;

pub const MAX_NUM_MISSIONS: usize = 512;

pub const MAX_NUM_FOCUS: usize = 1024;

pub const MAX_NUM_ITEMREACT: usize = 1024;

pub const MAX_NUM_INFO: usize = 16000;

pub const MAX_NUM_MENU: usize = 1024;

pub const MAX_NUM_MENUITEM: usize = 1024;

pub const MAX_NUM_SFX: usize = 4096;

pub const MAX_NUM_PFX: usize = 1024;

pub const MAX_NUM_MUSICTHEME: usize = 512;

/// The host's callbacks for changes of the game state. A host without a use for one
/// implements it as doing nothing.
pub trait GameExternals {
    fn insert_npc(&mut self, npc: Handle, waypoint: &[u8]);

    fn post_insert_npc(&mut self, npc: Handle);

    fn remove_npc(&mut self, npc: Handle);

    fn insert_item(&mut self, item: Handle);

    fn create_inv_item(&mut self, item: Handle, npc: Handle);
}

/// The position of the last inventory entry of `npc`, if any.
pub open spec fn inventory_position(entries: Seq<(Handle, Vec<Handle>)>, npc: Handle) -> Option<int>
    decreases entries.len(),
{
    if entries.len() == 0 {
        None
    } else if entries.last().0 == npc {
        Some(entries.len() - 1)
    } else {
        inventory_position(entries.drop_last(), npc)
    }
}

/// Whether item `h` is held and was made for the instance symbol `sym`.
pub open spec fn item_matches(items: Map<Handle, Item>, h: Handle, sym: usize) -> bool {
    items.dom().contains(h) && items[h].instance_symbol == sym
}

/// `a + b`, or `u32::MAX` where that overflows.
pub open spec fn saturating_sum(a: u32, b: u32) -> u32 {
    if a as int + b as int > u32::MAX {
        u32::MAX
    } else {
        (a + b) as u32
    }
}

/// The amount a request stands for: at least one.
pub open spec fn clamp_amount(amount: u32) -> u32 {
    if amount == 0 {
        1
    } else {
        amount
    }
}

/// `b` is `a` after removing `amount` of the item made for `sym` at position `j` of
/// `npc`'s inventory, the first such item: its amount shrinks where more are held,
/// else it leaves the inventory and the item pool.
pub open spec fn removed_at(a: &GameState, b: &GameState, npc: Handle, sym: usize, amount: u32, j: int) -> bool {
    let inv = a.inventory_or_empty(npc);
    let items = a.items_spec().contents();
    let h = inv[j];
    &&& 0 <= j < inv.len()
    &&& item_matches(items, h, sym)
    &&& forall|l: int| 0 <= l < j ==> !item_matches(items, #[trigger] inv[l], sym)
    &&& if items[h].amount > amount {
        &&& b.items_spec().contents() == items.insert(h, Item { amount: (items[h].amount - amount) as u32, ..items[h] })
        &&& b.inventory(npc) == a.inventory(npc)
    } else {
        &&& b.items_spec().contents() == items.remove(h)
        &&& b.inventory(npc) == Some(inv.remove(j))
    }
}

/// `b` is the machine `a` after the record `h` of class `class` was set up for the
/// symbol at `sym`: the symbol is registered for the class and bound to `h`, and the
/// machine's registers are as before.
pub open spec fn initialised(a: &VirtualMachine, b: &VirtualMachine, h: Handle, sym: usize, class: InstanceClass) -> bool {
    &&& b.snapshot() == a.snapshot()
    &&& sym < a.symbols().len() ==> b.registered_spec().contains((class, sym))
    &&& sym < a.symbols().len() && sym < b.symbols().len() ==> {
        &&& b.symbols()[sym as int].instance_data_handle == h
        &&& b.symbols()[sym as int].instance_data_class == Some(class)
    }
}

/// One pool per instance class, and each NPC's inventory of item handles.
pub struct GameState {
    npcs: ObjectAllocator<Npc>,
    items: ObjectAllocator<Item>,
    item_reacts: ObjectAllocator<ItemReact>,
    missions: ObjectAllocator<Mission>,
    focuses: ObjectAllocator<Focus>,
    infos: ObjectAllocator<Info>,
    menus: ObjectAllocator<Menu>,
    menu_items: ObjectAllocator<MenuItem>,
    sound_effects: ObjectAllocator<SoundEffect>,
    particle_effects: ObjectAllocator<ParticleEffect>,
    music_themes: ObjectAllocator<MusicTheme>,
    npc_inventories: Vec<(Handle, Vec<Handle>)>,
}

impl GameState {
    pub closed spec fn npcs_spec(&self) -> ObjectAllocator<Npc> {
        self.npcs
    }

    pub closed spec fn items_spec(&self) -> ObjectAllocator<Item> {
        self.items
    }

    pub closed spec fn item_reacts_spec(&self) -> ObjectAllocator<ItemReact> {
        self.item_reacts
    }

    pub closed spec fn missions_spec(&self) -> ObjectAllocator<Mission> {
        self.missions
    }

    pub closed spec fn focuses_spec(&self) -> ObjectAllocator<Focus> {
        self.focuses
    }

    pub closed spec fn infos_spec(&self) -> ObjectAllocator<Info> {
        self.infos
    }

    pub closed spec fn menus_spec(&self) -> ObjectAllocator<Menu> {
        self.menus
    }

    pub closed spec fn menu_items_spec(&self) -> ObjectAllocator<MenuItem> {
        self.menu_items
    }

    pub closed spec fn sound_effects_spec(&self) -> ObjectAllocator<SoundEffect> {
        self.sound_effects
    }

    pub closed spec fn particle_effects_spec(&self) -> ObjectAllocator<ParticleEffect> {
        self.particle_effects
    }

    pub closed spec fn music_themes_spec(&self) -> ObjectAllocator<MusicTheme> {
        self.music_themes
    }

    /// The inventory of `npc`, if it has one.
    pub closed spec fn inventory(&self, npc: Handle) -> Option<Seq<Handle>> {
        match inventory_position(self.npc_inventories@, npc) {
            Some(k) => Some(self.npc_inventories@[k].1@),
            None => None,
        }
    }

    /// The inventory of `npc`, or an empty one.
    pub open spec fn inventory_or_empty(&self, npc: Handle) -> Seq<Handle> {
        match self.inventory(npc) {
            Some(v) => v,
            None => Seq::empty(),
        }
    }

    /// All pools are as in `other`.
    pub closed spec fn pools_same(&self, other: &GameState) -> bool {
        &&& self.npcs == other.npcs
        &&& self.items == other.items
        &&& self.item_reacts == other.item_reacts
        &&& self.missions == other.missions
        &&& self.focuses == other.focuses
        &&& self.infos == other.infos
        &&& self.menus == other.menus
        &&& self.menu_items == other.menu_items
        &&& self.sound_effects == other.sound_effects
        &&& self.particle_effects == other.particle_effects
        &&& self.music_themes == other.music_themes
    }

    pub closed spec fn wf(&self) -> bool {
        &&& self.npcs.wf()
        &&& self.items.wf()
        &&& self.item_reacts.wf()
        &&& self.missions.wf()
        &&& self.focuses.wf()
        &&& self.infos.wf()
        &&& self.menus.wf()
        &&& self.menu_items.wf()
        &&& self.sound_effects.wf()
        &&& self.particle_effects.wf()
        &&& self.music_themes.wf()
    }

    /// Empty pools with the default limits, and no inventories.
    pub fn new() -> (r: GameState)
        ensures
            r.wf(),
            r.npcs_spec().contents() == Map::<Handle, Npc>::empty(),
            r.items_spec().contents() == Map::<Handle, Item>::empty(),
            r.npcs_spec().limit_spec() == MAX_NUM_NPCS,
            r.items_spec().limit_spec() == MAX_NUM_ITEMS,
            r.item_reacts_spec().limit_spec() == MAX_NUM_ITEMREACT,
            r.missions_spec().limit_spec() == MAX_NUM_MISSIONS,
            r.focuses_spec().limit_spec() == MAX_NUM_FOCUS,
            r.infos_spec().limit_spec() == MAX_NUM_INFO,
            r.menus_spec().limit_spec() == MAX_NUM_MENU,
            r.menu_items_spec().limit_spec() == MAX_NUM_MENUITEM,
            r.sound_effects_spec().limit_spec() == MAX_NUM_SFX,
            r.particle_effects_spec().limit_spec() == MAX_NUM_PFX,
            r.music_themes_spec().limit_spec() == MAX_NUM_MUSICTHEME,
            forall|h: Handle| r.inventory(h) is None,
    {
        GameState {
            npcs: ObjectAllocator::new(MAX_NUM_NPCS),
            items: ObjectAllocator::new(MAX_NUM_ITEMS),
            item_reacts: ObjectAllocator::new(MAX_NUM_ITEMREACT),
            missions: ObjectAllocator::new(MAX_NUM_MISSIONS),
            focuses: ObjectAllocator::new(MAX_NUM_FOCUS),
            infos: ObjectAllocator::new(MAX_NUM_INFO),
            menus: ObjectAllocator::new(MAX_NUM_MENU),
            menu_items: ObjectAllocator::new(MAX_NUM_MENUITEM),
            sound_effects: ObjectAllocator::new(MAX_NUM_SFX),
            particle_effects: ObjectAllocator::new(MAX_NUM_PFX),
            music_themes: ObjectAllocator::new(MAX_NUM_MUSICTHEME),
            npc_inventories: Vec::new(),
        }
    }

    /// The NPC record of `h`, if it is held.
    pub fn get_npc(&self, h: Handle) -> (r: Option<&Npc>)
        requires
            self.wf(),
        ensures
            self.npcs_spec().contents().dom().contains(h) ==> r == Some(&self.npcs_spec().contents()[h]),
            !self.npcs_spec().contents().dom().contains(h) ==> r is None,
    {
        self.npcs.get(h)
    }

    /// The item record of `h`, if it is held.
    pub fn get_item(&self, h: Handle) -> (r: Option<&Item>)
        requires
            self.wf(),
        ensures
            self.items_spec().contents().dom().contains(h) ==> r == Some(&self.items_spec().contents()[h]),
            !self.items_spec().contents().dom().contains(h) ==> r is None,
    {
        self.items.get(h)
    }

    /// Removes the NPC record of `h` and tells the host; false where it is not held.
    pub fn remove_npc<H: GameExternals>(&mut self, host: &mut H, h: Handle) -> (r: bool)
        requires
            old(self).wf(),
        ensures
            final(self).wf(),
            r == old(self).npcs_spec().contents().dom().contains(h),
            final(self).npcs_spec().contents() == old(self).npcs_spec().contents().remove(h),
            final(self).items_spec() == old(self).items_spec(),
    {
        let removed = self.npcs.remove(h);
        proof {
            if !removed {
                assert(old(self).npcs_spec().contents().remove(h) =~= old(self).npcs_spec().contents());
            }
        }
        if removed {
            host.remove_npc(h);
        }
        removed
    }

    /// Removes the item record of `h`; false where it is not held.
    pub fn remove_item(&mut self, h: Handle) -> (r: bool)
        requires
            old(self).wf(),
        ensures
            final(self).wf(),
            r == old(self).items_spec().contents().dom().contains(h),
            final(self).items_spec().contents() == old(self).items_spec().contents().remove(h),
            final(self).npcs_spec() == old(self).npcs_spec(),
    {
        let removed = self.items.remove(h);
        proof {
            if !removed {
                assert(old(self).items_spec().contents().remove(h) =~= old(self).items_spec().contents());
            }
        }
        removed
    }

    /// The position of the inventory of `npc` in the list, if it has one.
    fn find_inventory(&self, npc: Handle) -> (r: Option<usize>)
        ensures
            r is None <==> inventory_position(self.npc_inventories@, npc) is None,
            r matches Some(k) ==> k < self.npc_inventories@.len() && inventory_position(self.npc_inventories@, npc) == Some(k as int),
    {
        let mut i = self.npc_inventories.len();
        assert(self.npc_inventories@.subrange(0, i as int) =~= self.npc_inventories@);
        while i > 0
            invariant
                i <= self.npc_inventories@.len(),
                inventory_position(self.npc_inventories@, npc) == inventory_position(
                    self.npc_inventories@.subrange(0, i as int),
                    npc,
                ),
            decreases i,
        {
            let ghost prefix = self.npc_inventories@.subrange(0, i as int);
            assert(prefix.drop_last() =~= self.npc_inventories@.subrange(0, i - 1));
            if self.npc_inventories[i - 1].0 == npc {
                return Some(i - 1);
            }
            i -= 1;
        }
        assert(self.npc_inventories@.subrange(0, 0) =~= Seq::<(Handle, Vec<Handle>)>::empty());
        None
    }

    /// The inventory of `npc`, if it has one.
    pub fn get_inv_of(&self, npc: Handle) -> (r: Option<&Vec<Handle>>)
        ensures
            match self.inventory(npc) {
                Some(v) => r matches Some(x) && x@ == v,
                None => r is None,
            },
    {
        match self.find_inventory(npc) {
            Some(k) => Some(&self.npc_inventories[k].1),
            None => None,
        }
    }

    /// The first item of `npc`'s inventory that was made for `item_symbol`.
    fn find_inv_item(&self, npc: Handle, item_symbol: usize) -> (r: Option<(usize, usize)>)
        requires
            self.wf(),
        ensures
            r matches Some((k, j)) ==> {
                &&& self.inventory(npc) is Some
                &&& k < self.npc_inventories@.len()
                &&& inventory_position(self.npc_inventories@, npc) == Some(k as int)
                &&& j < self.inventory_or_empty(npc).len()
                &&& item_matches(self.items.contents(), self.inventory_or_empty(npc)[j as int], item_symbol)
                &&& forall|l: int| 0 <= l < j ==> !item_matches(self.items.contents(), #[trigger] self.inventory_or_empty(npc)[l], item_symbol)
            },
            r is None ==> forall|l: int| 0 <= l < self.inventory_or_empty(npc).len() ==> !item_matches(
                self.items.contents(),
                #[trigger] self.inventory_or_empty(npc)[l],
                item_symbol,
            ),
    {
        let k = match self.find_inventory(npc) {
            Some(k) => k,
            None => return None,
        };
        let inv = &self.npc_inventories[k].1;
        let mut j: usize = 0;
        while j < inv.len()
            invariant
                k < self.npc_inventories@.len(),
                inventory_position(self.npc_inventories@, npc) == Some(k as int),
                inv@ == self.inventory_or_empty(npc),
                j <= inv@.len(),
                self.wf(),
                forall|l: int| 0 <= l < j ==> !item_matches(self.items.contents(), #[trigger] inv@[l], item_symbol),
            decreases inv@.len() - j,
        {
            match self.items.get(inv[j]) {
                Some(item) => {
                    if item.instance_symbol == item_symbol {
                        return Some((k, j));
                    }
                },
                None => {},
            }
            j += 1;
        }
        None
    }

    /// Adds `amount` (at least one) of the item made for `item_symbol` to `npc`'s
    /// inventory. Where the inventory holds such an item already, its amount grows and
    /// its handle is returned. Otherwise a new item record is made, its constructor run,
    /// and it is appended to the inventory (the host hears of it); this fails once the
    /// item pool is full.
    pub fn create_inv_item<H: ExternalHost + GameExternals>(
        &mut self,
        vm: &mut VirtualMachine,
        host: &mut H,
        item_symbol: usize,
        npc: Handle,
        amount: u32,
    ) -> (r: Result<Handle, AllocError>)
        requires
            old(self).wf(),
        ensures
            final(self).wf(),
            final(self).npcs_spec().contents() == old(self).npcs_spec().contents(),
            forall|h: Handle| h != npc ==> #[trigger] final(self).inventory(h) == old(self).inventory(h),
            ({
                let inv = old(self).inventory_or_empty(npc);
                let items = old(self).items_spec().contents();
                let add = clamp_amount(amount);
                if exists|j: int| 0 <= j < inv.len() && item_matches(items, #[trigger] inv[j], item_symbol) {
                    r matches Ok(h) && {
                        &&& exists|j: int| 0 <= j < inv.len() && inv[j] == h && item_matches(items, inv[j], item_symbol)
                            && forall|l: int| 0 <= l < j ==> !item_matches(items, #[trigger] inv[l], item_symbol)
                        &&& final(self).items_spec().contents() == items.insert(h, Item { amount: saturating_sum(items[h].amount, add), ..items[h] })
                        &&& final(self).inventory_or_empty(npc) == inv
                    }
                } else if old(self).items_spec().count() >= old(self).items_spec().limit_spec() {
                    &&& r == Err::<Handle, AllocError>(AllocError::NoSpaceLeft)
                    &&& final(self).items_spec().contents() == items
                    &&& final(self).inventory_or_empty(npc) == inv
                } else {
                    &&& (old(self).items_spec().slot_count() < u32::MAX ==> r is Ok)
                    &&& r matches Ok(h) ==> {
                        &&& !items.dom().contains(h)
                        &&& final(self).items_spec().contents().dom() == items.dom().insert(h)
                        &&& final(self).items_spec().contents()[h].amount == add
                        &&& final(self).items_spec().contents()[h].instance_symbol == item_symbol
                        &&& forall|x: Handle| x != h && items.dom().contains(x) ==> #[trigger] final(self).items_spec().contents()[x] == items[x]
                        &&& final(self).inventory(npc) == Some(inv.push(h))
                    }
                }
            }),
            r matches Ok(h) ==> (!old(self).items_spec().contents().dom().contains(h) ==> initialised(old(vm), final(vm), h, item_symbol, InstanceClass::Item)),
    {
        let add: u32 = if amount == 0 {
            1
        } else {
            amount
        };
        match self.find_inv_item(npc, item_symbol) {
            Some((k, j)) => {
                let h = self.npc_inventories[k].1[j];
                let ghost items = self.items.contents();
                let mut record = match self.items.replace(h, Item::new()) {
                    Some(rec) => rec,
                    None => return Ok(h),
                };
                record.amount = if record.amount > u32::MAX - add {
                    u32::MAX
                } else {
                    record.amount + add
                };
                let _ = self.items.replace(h, record);
                proof {
                    assert(self.items.contents() =~= items.insert(h, Item { amount: saturating_sum(items[h].amount, add), ..items[h] }));
                    let inv = old(self).inventory_or_empty(npc);
                    assert(inv[j as int] == h);
                }
                Ok(h)
            },
            None => {
                let mut record = Item::new();
                record.amount = add;
                record.instance_symbol = item_symbol;
                let h = match self.items.create(record) {
                    Ok(h) => h,
                    Err(e) => return Err(e),
                };
                let _ = vm.initialise_instance(host, h, item_symbol, InstanceClass::Item);
                self.add_new_to_inv(h, npc);
                host.create_inv_item(h, npc);
                Ok(h)
            },
        }
    }

    /// Puts the held item `item` into `npc`'s inventory. Where the inventory holds an item
    /// made for the same instance symbol already, that one's amount grows by one and its
    /// handle is returned; otherwise `item` is appended (the host hears of it) and
    /// returned. An item that is not held changes nothing.
    pub fn add_item_to_inv<H: GameExternals>(&mut self, host: &mut H, item: Handle, npc: Handle) -> (r: Handle)
        requires
            old(self).wf(),
        ensures
            final(self).wf(),
            final(self).npcs_spec() == old(self).npcs_spec(),
            forall|h: Handle| h != npc ==> #[trigger] final(self).inventory(h) == old(self).inventory(h),
            ({
                let inv = old(self).inventory_or_empty(npc);
                let items = old(self).items_spec().contents();
                if !items.dom().contains(item) {
                    r == item && final(self).items_spec() == old(self).items_spec() && final(self).inventory(npc) == old(self).inventory(npc)
                } else if exists|j: int| 0 <= j < inv.len() && item_matches(items, #[trigger] inv[j], items[item].instance_symbol) {
                    &&& exists|j: int| 0 <= j < inv.len() && inv[j] == r && item_matches(items, inv[j], items[item].instance_symbol)
                        && forall|l: int| 0 <= l < j ==> !item_matches(items, #[trigger] inv[l], items[item].instance_symbol)
                    &&& final(self).items_spec().contents() == items.insert(r, Item { amount: saturating_sum(items[r].amount, 1), ..items[r] })
                    &&& final(self).inventory_or_empty(npc) == inv
                } else {
                    &&& r == item
                    &&& final(self).items_spec() == old(self).items_spec()
                    &&& final(self).inventory(npc) == Some(inv.push(item))
                }
            }),
    {
        let sym = match self.items.get(item) {
            Some(rec) => rec.instance_symbol,
            None => return item,
        };
        match self.find_inv_item(npc, sym) {
            Some((k, j)) => {
                let h = self.npc_inventories[k].1[j];
                let ghost items = self.items.contents();
                let mut record = match self.items.replace(h, Item::new()) {
                    Some(rec) => rec,
                    None => return h,
                };
                record.amount = if record.amount == u32::MAX {
                    u32::MAX
                } else {
                    record.amount + 1
                };
                let _ = self.items.replace(h, record);
                proof {
                    assert(self.items.contents() =~= items.insert(h, Item { amount: saturating_sum(items[h].amount, 1), ..items[h] }));
                    let inv = old(self).inventory_or_empty(npc);
                    assert(inv[j as int] == h);
                }
                h
            },
            None => {
                self.add_new_to_inv(item, npc);
                host.create_inv_item(item, npc);
                item
            },
        }
    }

    /// Appends `item` to `npc`'s inventory, making the inventory where there is none.
    fn add_new_to_inv(&mut self, item: Handle, npc: Handle)
        ensures
            final(self).npcs_spec() == old(self).npcs_spec(),
            final(self).items_spec() == old(self).items_spec(),
            final(self).pools_same(old(self)),
            final(self).inventory(npc) == Some(old(self).inventory_or_empty(npc).push(item)),
            forall|h: Handle| h != npc ==> #[trigger] final(self).inventory(h) == old(self).inventory(h),
    {
        match self.find_inventory(npc) {
            Some(k) => {
                let ghost entries = self.npc_inventories@;
                let mut entry = (Handle::new(), Vec::new());
                std::mem::swap(&mut entry, &mut self.npc_inventories[k]);
                entry.1.push(item);
                std::mem::swap(&mut entry, &mut self.npc_inventories[k]);
                proof {
                    assert forall|h: Handle| #[trigger] inventory_position(self.npc_inventories@, h) == inventory_position(entries, h) by {
                        self.lemma_position_kept(entries, k as int, h);
                    }
                    assert forall|h: Handle| h != npc implies #[trigger] self.inventory(h) == old(self).inventory(h) by {
                        lemma_position_key(entries, h);
                        lemma_position_key(entries, npc);
                        if let Some(p) = inventory_position(entries, h) {
                            assert(p != k);
                            assert(self.npc_inventories@[p] == entries[p]);
                        }
                    }
                }
            },
            None => {
                let mut inv: Vec<Handle> = Vec::new();
                inv.push(item);
                let ghost entries = self.npc_inventories@;
                self.npc_inventories.push((npc, inv));
                proof {
                    assert(self.npc_inventories@.drop_last() =~= entries);
                    assert(inv@ =~= Seq::<Handle>::empty().push(item));
                    assert forall|h: Handle| h != npc implies #[trigger] self.inventory(h) == old(self).inventory(h) by {
                        lemma_position_key(entries, h);
                    }
                }
            },
        }
    }

    /// Changing the handles of the entry at `k`, but not its key, keeps every position.
    proof fn lemma_position_kept(&self, entries: Seq<(Handle, Vec<Handle>)>, k: int, h: Handle)
        requires
            self.npc_inventories@.len() == entries.len(),
            0 <= k < entries.len(),
            self.npc_inventories@[k].0 == entries[k].0,
            forall|l: int| 0 <= l < entries.len() && l != k ==> #[trigger] self.npc_inventories@[l] == entries[l],
        ensures
            inventory_position(self.npc_inventories@, h) == inventory_position(entries, h),
        decreases entries.len(),
    {
        lemma_position_prefix(self.npc_inventories@, entries, k, h);
    }

    /// Removes `amount` of the item made for `item_symbol` from `npc`'s inventory: where
    /// more are held, the amount shrinks; otherwise the item leaves the inventory and its
    /// pool. False where the inventory holds no such item.
    pub fn remove_inv_item(&mut self, item_symbol: usize, npc: Handle, amount: u32) -> (r: bool)
        requires
            old(self).wf(),
        ensures
            final(self).wf(),
            r == exists|j: int| 0 <= j < old(self).inventory_or_empty(npc).len() && item_matches(
                old(self).items_spec().contents(),
                #[trigger] old(self).inventory_or_empty(npc)[j],
                item_symbol,
            ),
            !r ==> final(self).items_spec().contents() == old(self).items_spec().contents()
                && final(self).inventory(npc) == old(self).inventory(npc),
            forall|h: Handle| h != npc ==> #[trigger] final(self).inventory(h) == old(self).inventory(h),
            final(self).npcs_spec() == old(self).npcs_spec(),
            r ==> exists|j: int| #[trigger] removed_at(old(self), final(self), npc, item_symbol, amount, j),
    {
        match self.find_inv_item(npc, item_symbol) {
            Some((k, j)) => {
                let h = self.npc_inventories[k].1[j];
                let ghost items = self.items.contents();
                let ghost inv = old(self).inventory_or_empty(npc);
                assert(inv[j as int] == h);
                let mut record = match self.items.replace(h, Item::new()) {
                    Some(rec) => rec,
                    None => return true,
                };
                if record.amount > amount {
                    record.amount = record.amount - amount;
                    let _ = self.items.replace(h, record);
                    proof {
                        assert(self.items.contents() =~= items.insert(h, Item { amount: (items[h].amount - amount) as u32, ..items[h] }));
                    }
                } else {
                    let _ = self.items.remove(h);
                    assert(self.items.contents() =~= items.remove(h));
                    let ghost entries = self.npc_inventories@;
                    let mut entry = (Handle::new(), Vec::new());
                    std::mem::swap(&mut entry, &mut self.npc_inventories[k]);
                    if j < entry.1.len() {
                        entry.1.remove(j);
                    }
                    std::mem::swap(&mut entry, &mut self.npc_inventories[k]);
                    proof {
                        assert forall|x: Handle| #[trigger] inventory_position(self.npc_inventories@, x) == inventory_position(entries, x) by {
                            self.lemma_position_kept(entries, k as int, x);
                        }
                        assert forall|x: Handle| x != npc implies #[trigger] self.inventory(x) == old(self).inventory(x) by {
                            lemma_position_key(entries, x);
                            lemma_position_key(entries, npc);
                            if let Some(p) = inventory_position(entries, x) {
                                assert(p != k);
                                assert(self.npc_inventories@[p] == entries[p]);
                            }
                        }
                        assert(self.npc_inventories@[k as int].1@ =~= inv.remove(j as int));
                    }
                }
                proof {
                    assert(removed_at(old(self), self, npc, item_symbol, amount, j as int));
                }
                true
            },
            None => false,
        }
    }

    /// Makes an NPC record for the instance symbol `instance` standing at `waypoint`,
    /// tells the host, runs its constructor and tells the host again. Its inventory comes
    /// with its first item. Fails once the NPC pool is full.
    pub fn insert_npc<H: ExternalHost + GameExternals>(
        &mut self,
        vm: &mut VirtualMachine,
        host: &mut H,
        instance: usize,
        waypoint: &[u8],
    ) -> (r: Result<Handle, AllocError>)
        requires
            old(self).wf(),
        ensures
            final(self).wf(),
            final(self).items_spec() == old(self).items_spec(),
            old(self).npcs_spec().count() >= old(self).npcs_spec().limit_spec() ==> r == Err::<Handle, AllocError>(AllocError::NoSpaceLeft),
            old(self).npcs_spec().count() < old(self).npcs_spec().limit_spec() && old(self).npcs_spec().slot_count() < u32::MAX ==> r is Ok,
            r matches Ok(h) ==> {
                &&& !old(self).npcs_spec().contents().dom().contains(h)
                &&& final(self).npcs_spec().contents().dom() == old(self).npcs_spec().contents().dom().insert(h)
                &&& final(self).npcs_spec().contents()[h].instance_symbol == instance
                &&& final(self).npcs_spec().contents()[h].waypoint@ == waypoint@
                &&& final(self).inventory_or_empty(h) == old(self).inventory_or_empty(h)
            },
            r matches Ok(h) ==> initialised(old(vm), final(vm), h, instance, InstanceClass::Npc),
    {
        let mut record = Npc::new();
        record.instance_symbol = instance;
        record.waypoint = copy_bytes(waypoint);
        let h = match self.npcs.create(record) {
            Ok(h) => h,
            Err(e) => return Err(e),
        };
        host.insert_npc(h, waypoint);
        let _ = vm.initialise_instance(host, h, instance, InstanceClass::Npc);
        host.post_insert_npc(h);
        Ok(h)
    }

    /// Makes an item record for the instance symbol `instance` and runs its constructor.
    /// Fails once the item pool is full.
    pub fn insert_item<H: ExternalHost + GameExternals>(
        &mut self,
        vm: &mut VirtualMachine,
        host: &mut H,
        instance: usize,
    ) -> (r: Result<Handle, AllocError>)
        requires
            old(self).wf(),
        ensures
            final(self).wf(),
            final(self).npcs_spec() == old(self).npcs_spec(),
            old(self).items_spec().count() >= old(self).items_spec().limit_spec() ==> r == Err::<Handle, AllocError>(AllocError::NoSpaceLeft),
            old(self).items_spec().count() < old(self).items_spec().limit_spec() && old(self).items_spec().slot_count() < u32::MAX ==> r is Ok,
            r matches Ok(h) ==> {
                &&& !old(self).items_spec().contents().dom().contains(h)
                &&& final(self).items_spec().contents() == old(self).items_spec().contents().insert(h, final(self).items_spec().contents()[h])
                &&& final(self).items_spec().contents()[h].instance_symbol == instance
            },
            r matches Ok(h) ==> initialised(old(vm), final(vm), h, instance, InstanceClass::Item),
    {
        let mut record = Item::new();
        record.instance_symbol = instance;
        let h = match self.items.create(record) {
            Ok(h) => h,
            Err(e) => return Err(e),
        };
        let _ = vm.initialise_instance(host, h, instance, InstanceClass::Item);
        host.insert_item(h);
        Ok(h)
    }

    /// Makes a sound effect record for the instance symbol `instance` and runs its
    /// constructor. Fails once the pool is full.
    pub fn insert_sound_effect<H: ExternalHost>(
        &mut self,
        vm: &mut VirtualMachine,
        host: &mut H,
        instance: usize,
    ) -> (r: Result<Handle, AllocError>)
        requires
            old(self).wf(),
        ensures
            final(self).wf(),
            old(self).sound_effects_spec().count() >= old(self).sound_effects_spec().limit_spec() ==> r == Err::<Handle, AllocError>(AllocError::NoSpaceLeft),
            old(self).sound_effects_spec().count() < old(self).sound_effects_spec().limit_spec() && old(self).sound_effects_spec().slot_count() < u32::MAX ==> r is Ok,
            r matches Ok(h) ==> !old(self).sound_effects_spec().contents().dom().contains(h)
                && final(self).sound_effects_spec().contents()[h].instance_symbol == instance
                && final(self).sound_effects_spec().contents().dom() == old(self).sound_effects_spec().contents().dom().insert(h),
            r matches Ok(h) ==> initialised(old(vm), final(vm), h, instance, InstanceClass::Sfx),
    {
        let mut record = SoundEffect::new();
        record.instance_symbol = instance;
        let h = match self.sound_effects.create(record) {
            Ok(h) => h,
            Err(e) => return Err(e),
        };
        let _ = vm.initialise_instance(host, h, instance, InstanceClass::Sfx);
        Ok(h)
    }

    /// Makes a music theme record for the instance symbol `instance` and runs its
    /// constructor. Fails once the pool is full.
    pub fn insert_music_theme<H: ExternalHost>(
        &mut self,
        vm: &mut VirtualMachine,
        host: &mut H,
        instance: usize,
    ) -> (r: Result<Handle, AllocError>)
        requires
            old(self).wf(),
        ensures
            final(self).wf(),
            old(self).music_themes_spec().count() >= old(self).music_themes_spec().limit_spec() ==> r == Err::<Handle, AllocError>(AllocError::NoSpaceLeft),
            old(self).music_themes_spec().count() < old(self).music_themes_spec().limit_spec() && old(self).music_themes_spec().slot_count() < u32::MAX ==> r is Ok,
            r matches Ok(h) ==> !old(self).music_themes_spec().contents().dom().contains(h)
                && final(self).music_themes_spec().contents()[h].instance_symbol == instance
                && final(self).music_themes_spec().contents().dom() == old(self).music_themes_spec().contents().dom().insert(h),
            r matches Ok(h) ==> initialised(old(vm), final(vm), h, instance, InstanceClass::MusicTheme),
    {
        let mut record = MusicTheme::new();
        record.instance_symbol = instance;
        let h = match self.music_themes.create(record) {
            Ok(h) => h,
            Err(e) => return Err(e),
        };
        let _ = vm.initialise_instance(host, h, instance, InstanceClass::MusicTheme);
        Ok(h)
    }
}

/// A position found holds the key searched for.
proof fn lemma_position_key(entries: Seq<(Handle, Vec<Handle>)>, h: Handle)
    ensures
        inventory_position(entries, h) matches Some(p) ==> 0 <= p < entries.len() && entries[p].0 == h,
    decreases entries.len(),
{
    if entries.len() > 0 && entries.last().0 != h {
        lemma_position_key(entries.drop_last(), h);
    }
}

/// Positions agree where only the entry at `k`, with its key kept, differs.
proof fn lemma_position_prefix(a: Seq<(Handle, Vec<Handle>)>, b: Seq<(Handle, Vec<Handle>)>, k: int, h: Handle)
    requires
        a.len() == b.len(),
        0 <= k < b.len(),
        a[k].0 == b[k].0,
        forall|l: int| 0 <= l < b.len() && l != k ==> #[trigger] a[l] == b[l],
    ensures
        inventory_position(a, h) == inventory_position(b, h),
    decreases a.len(),
{
    let n = a.len() - 1;
    if n == k {
        assert(a.drop_last() =~= b.drop_last());
    } else {
        assert(a[n] == b[n]);
        if a.last().0 != h {
            lemma_position_prefix(a.drop_last(), b.drop_last(), k, h);
        }
    }
}

} // verus!
