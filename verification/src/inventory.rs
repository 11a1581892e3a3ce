use vstd::prelude::*;
use crate::blocks::BlockId;

verus! {

/// Number of slots in the hotbar.
pub const HOTBAR_SLOTS: usize = 9;

/// Identifier of an item that is not a block.
#[derive(Debug, Clone, Copy, PartialEq, Eq, Hash, Structural)]
pub enum ItemId {
    Torch,
}

impl ItemId {
    /// Name of the item for display.
    pub fn name(&self) -> (name: &'static str)
        ensures
            name@ == "Torch"@,
    {
        match self {
            ItemId::Torch => "Torch",
        }
    }
}

/// What a hotbar slot can hold.
#[derive(Debug, Clone, Copy, PartialEq, Eq, Structural)]
pub enum HotbarItem {
    Block(BlockId),
    Item(ItemId),
}

/// The player's hotbar: nine slots, one of them selected.
pub struct PlayerInventory {
    hotbar: [Option<HotbarItem>; 9],
    selected_slot: usize,
}

/// Mathematical content of an inventory.
pub ghost struct InventoryView {
    pub hotbar: Seq<Option<HotbarItem>>,
    pub selected_slot: int,
}

impl InventoryView {
    /// The content of the selected slot.
    pub open spec fn selected(self) -> Option<HotbarItem> {
        self.hotbar[self.selected_slot]
    }

    pub open spec fn wf(self) -> bool {
        self.hotbar.len() == 9 && 0 <= self.selected_slot < 9
    }
}

impl View for PlayerInventory {
    type V = InventoryView;

    closed spec fn view(&self) -> InventoryView {
        InventoryView { hotbar: self.hotbar@, selected_slot: self.selected_slot as int }
    }
}

impl Default for PlayerInventory {
    /// An empty hotbar with the first slot selected.
    fn default() -> (inventory: PlayerInventory)
        ensures
            inventory@.wf(),
            inventory@.selected_slot == 0,
            forall|i: int| 0 <= i < 9 ==> inventory@.hotbar[i] is None,
    {
        PlayerInventory { hotbar: [None; 9], selected_slot: 0 }
    }
}

impl PlayerInventory {
    #[verifier::type_invariant]
    pub open spec fn inv(self) -> bool {
        self@.wf()
    }

    /// A hotbar that holds the four terrain blocks in its first four slots,
    /// with the first slot selected.
    pub fn new_with_blocks(bedrock: BlockId, stone: BlockId, dirt: BlockId, grass: BlockId) -> (inventory:
        PlayerInventory)
        ensures
            inventory@.wf(),
            inventory@.selected_slot == 0,
            inventory@.hotbar[0] == Some(HotbarItem::Block(bedrock)),
            inventory@.hotbar[1] == Some(HotbarItem::Block(stone)),
            inventory@.hotbar[2] == Some(HotbarItem::Block(dirt)),
            inventory@.hotbar[3] == Some(HotbarItem::Block(grass)),
            forall|i: int| 4 <= i < 9 ==> inventory@.hotbar[i] is None,
    {
        let mut hotbar: [Option<HotbarItem>; 9] = [None; 9];
        hotbar[0] = Some(HotbarItem::Block(bedrock));
        hotbar[1] = Some(HotbarItem::Block(stone));
        hotbar[2] = Some(HotbarItem::Block(dirt));
        hotbar[3] = Some(HotbarItem::Block(grass));
        PlayerInventory { hotbar, selected_slot: 0 }
    }

    /// The index of the selected slot.
    pub fn selected_slot(&self) -> (slot: usize)
        ensures
            slot == self@.selected_slot,
            slot < 9,
    {
        proof {
            use_type_invariant(self);
        }
        self.selected_slot
    }

    /// The content of a slot; nothing for an index beyond the hotbar.
    pub fn slot(&self, index: usize) -> (item: Option<HotbarItem>)
        ensures
            item == if index < 9 {
                self@.hotbar[index as int]
            } else {
                None
            },
    {
        if index < HOTBAR_SLOTS {
            self.hotbar[index]
        } else {
            None
        }
    }

    /// The selected block, if the selected slot holds a block.
    pub fn get_selected_block(&self) -> (block: Option<BlockId>)
        ensures
            block == match self@.selected() {
                Some(HotbarItem::Block(id)) => Some(id),
                _ => None,
            },
    {
        proof {
            use_type_invariant(self);
        }
        match self.hotbar[self.selected_slot] {
            Some(HotbarItem::Block(id)) => Some(id),
            _ => None,
        }
    }

    /// The selected item, if the selected slot holds an item that is not a block.
    pub fn get_selected_item(&self) -> (item: Option<ItemId>)
        ensures
            item == match self@.selected() {
                Some(HotbarItem::Item(id)) => Some(id),
                _ => None,
            },
    {
        proof {
            use_type_invariant(self);
        }
        match self.hotbar[self.selected_slot] {
            Some(HotbarItem::Item(id)) => Some(id),
            _ => None,
        }
    }

    /// Whether the selected slot holds the torch.
    pub fn is_torch_selected(&self) -> (torch: bool)
        ensures
            torch == (self@.selected() == Some(HotbarItem::Item(ItemId::Torch))),
    {
        proof {
            use_type_invariant(self);
        }
        match self.hotbar[self.selected_slot] {
            Some(HotbarItem::Item(ItemId::Torch)) => true,
            _ => false,
        }
    }

    /// Selects a slot; an index beyond the hotbar leaves the selection as it is.
    pub fn select_slot(&mut self, slot: usize)
        ensures
            final(self)@.hotbar == old(self)@.hotbar,
            final(self)@.selected_slot == if slot < 9 {
                slot as int
            } else {
                old(self)@.selected_slot
            },
    {
        proof {
            use_type_invariant(&*self);
        }
        if slot < HOTBAR_SLOTS {
            self.selected_slot = slot;
        }
    }

    /// Moves the selection by `delta` slots, around the ends of the hotbar.
    pub fn scroll_selection(&mut self, delta: i32)
        ensures
            final(self)@.hotbar == old(self)@.hotbar,
            final(self)@.selected_slot == (old(self)@.selected_slot + delta) % 9,
    {
        proof {
            use_type_invariant(&*self);
        }
        let moved: i64 = self.selected_slot as i64 + delta as i64;
        // 9 * 238609295 exceeds every i32 in size, so the sum is not negative
        let shifted: u64 = (moved + 2147483655i64) as u64;
        let new_slot: u64 = shifted % 9;
        assert(new_slot == (self.selected_slot as int + delta as int) % 9) by {
            assert(2147483655int == 9 * 238609295);
        }
        self.selected_slot = new_slot as usize;
    }
}

} // verus!
