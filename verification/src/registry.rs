use vstd::prelude::*;
use vstd::string::StrSliceExecFns;
use crate::blocks::{AtlasCoord, BlockId, BlockTextures, BlockType, FaceTints};

verus! {

/// Largest number of block kinds a registry holds.
pub const MAX_BLOCK_TYPES: usize = 65535;

/// Why a block kind could not be registered.
#[derive(Debug, Clone, Copy, PartialEq, Eq, Structural)]
pub enum RegistryError {
    /// A block kind of the same name is registered already.
    AlreadyRegistered,
    /// Every numeric identifier is in use.
    Full,
}

/// Whether some entry of `kinds` has the name `name`.
pub open spec fn registered(kinds: Seq<BlockType>, name: Seq<char>) -> bool {
    exists|i: int| 0 <= i < kinds.len() && #[trigger] kinds[i].properties.id@ == name
}

/// What holds of every registry: it has an entry for air at position 0, which
/// is neither solid nor a light source; it has an identifier for each entry;
/// and no two entries share a name.
pub open spec fn registry_wf(kinds: Seq<BlockType>) -> bool {
    &&& 1 <= kinds.len() <= 65535
    &&& !kinds[0].properties.is_solid
    &&& kinds[0].properties.light_emission == 0
    &&& forall|i: int, j: int|
        0 <= i < kinds.len() && 0 <= j < kinds.len() && i != j ==> #[trigger] kinds[i].properties.id@
            != #[trigger] kinds[j].properties.id@
}

/// A number that stands for a name in a quick first comparison: names with
/// different fingerprints are different names.
pub open spec fn fingerprint(name: Seq<char>) -> u64
    decreases name.len(),
{
    if name.len() == 0 {
        7
    } else {
        ((fingerprint(name.drop_last()) * 31 + name.last() as u64) % 0x1_0000_0000) as u64
    }
}

fn fingerprint_of(name: &str) -> (h: u64)
    ensures
        h == fingerprint(name@),
{
    let n = name.unicode_len();
    let mut h: u64 = 7;
    let mut i: usize = 0;
    while i < n
        invariant
            i <= n,
            n == name@.len(),
            h < 0x1_0000_0000,
            h == fingerprint(name@.take(i as int)),
        decreases n - i,
    {
        let c = name.get_char(i);
        proof {
            assert(name@.take(i as int + 1).drop_last() == name@.take(i as int));
            assert(name@.take(i as int + 1).last() == c);
        }
        h = (h * 31 + c as u64) % 0x1_0000_0000;
        i += 1;
    }
    assert(name@.take(n as int) == name@);
    h
}

/// The block catalog: block kinds by numeric identifier, in order of registration.
pub struct BlockRegistry {
    blocks: Vec<BlockType>,
    /// The fingerprint of the name of each block kind.
    fingerprints: Vec<u64>,
}

impl View for BlockRegistry {
    type V = Seq<BlockType>;

    closed spec fn view(&self) -> Seq<BlockType> {
        self.blocks@
    }
}

impl Default for BlockRegistry {
    /// A registry that holds air alone, under the identifier 0.
    fn default() -> (registry: BlockRegistry)
        ensures
            registry_wf(registry@),
            registry@.len() == 1,
            registry@[0].properties.id@ == "core:air"@,
            registry@[0].properties.name@ == "Air"@,
            registry@[0].properties.is_transparent,
            registry@[0].properties.textures == (BlockTextures {
                top: AtlasCoord { x: 0, y: 0 },
                bottom: AtlasCoord { x: 0, y: 0 },
                north: AtlasCoord { x: 0, y: 0 },
                south: AtlasCoord { x: 0, y: 0 },
                east: AtlasCoord { x: 0, y: 0 },
                west: AtlasCoord { x: 0, y: 0 },
                side_overlay: None,
            }),
            registry@[0].properties.tint_colors == FaceTints::spec_uniform(None),
    {
        let air = BlockType::builder("core:air", "Air").solid(false).transparent(true).build();
        let mut blocks: Vec<BlockType> = Vec::new();
        let mut fingerprints: Vec<u64> = Vec::new();
        fingerprints.push(fingerprint_of(air.properties.id.as_str()));
        blocks.push(air);
        BlockRegistry { blocks, fingerprints }
    }
}

impl BlockRegistry {
    #[verifier::type_invariant]
    pub open spec fn inv(self) -> bool {
        registry_wf(self@) && self.fingerprints_match()
    }

    /// Every entry has the fingerprint of its name on record.
    pub closed spec fn fingerprints_match(self) -> bool {
        &&& self.fingerprints@.len() == self.blocks@.len()
        &&& forall|i: int|
            0 <= i < self.blocks@.len() ==> #[trigger] self.fingerprints@[i] == fingerprint(
                self.blocks@[i].properties.id@,
            )
    }

    /// A registry that holds air alone, under the identifier 0.
    pub fn new() -> (registry: BlockRegistry)
        ensures
            registry_wf(registry@),
            registry@.len() == 1,
            registry@[0].properties.id@ == "core:air"@,
            registry@[0].properties.name@ == "Air"@,
            registry@[0].properties.is_transparent,
            registry@[0].properties.textures == (BlockTextures {
                top: AtlasCoord { x: 0, y: 0 },
                bottom: AtlasCoord { x: 0, y: 0 },
                north: AtlasCoord { x: 0, y: 0 },
                south: AtlasCoord { x: 0, y: 0 },
                east: AtlasCoord { x: 0, y: 0 },
                west: AtlasCoord { x: 0, y: 0 },
                side_overlay: None,
            }),
            registry@[0].properties.tint_colors == FaceTints::spec_uniform(None),
    {
        BlockRegistry::default()
    }

    /// Position of the entry named `name`, if there is one. An entry is
    /// compared by name only where its fingerprint is that of `name`.
    fn find(&self, name: &String) -> (found: Option<usize>)
        ensures
            match found {
                Some(i) => i < self@.len() && self@[i as int].properties.id@ == name@,
                None => !registered(self@, name@),
            },
    {
        proof {
            use_type_invariant(self);
        }
        let wanted = fingerprint_of(name.as_str());
        let mut i: usize = 0;
        while i < self.fingerprints.len()
            invariant
                i <= self.blocks@.len(),
                self.fingerprints_match(),
                wanted == fingerprint(name@),
                forall|j: int| 0 <= j < i ==> self.blocks@[j].properties.id@ != name@,
            decreases self.blocks@.len() - i,
        {
            if self.fingerprints[i] == wanted && self.blocks[i].properties.id == *name {
                return Some(i);
            }
            i += 1;
        }
        None
    }

    /// Registers a block kind under the next free identifier.
    ///
    /// Fails, and leaves the registry as it is, when the name is taken or,
    /// failing that, when no identifier is free.
    pub fn register_block(&mut self, block_type: BlockType) -> (result: Result<
        BlockId,
        RegistryError,
    >)
        ensures
            registry_wf(final(self)@),
            match result {
                Ok(id) => {
                    &&& !registered(old(self)@, block_type.properties.id@)
                    &&& old(self)@.len() < 65535
                    &&& id.0 == old(self)@.len()
                    &&& final(self)@ == old(self)@.push(block_type)
                },
                Err(RegistryError::AlreadyRegistered) => {
                    &&& registered(old(self)@, block_type.properties.id@)
                    &&& final(self)@ == old(self)@
                },
                Err(RegistryError::Full) => {
                    &&& !registered(old(self)@, block_type.properties.id@)
                    &&& old(self)@.len() == 65535
                    &&& final(self)@ == old(self)@
                },
            },
    {
        proof {
            use_type_invariant(&*self);
        }
        if self.find(&block_type.properties.id).is_some() {
            return Err(RegistryError::AlreadyRegistered);
        }
        if self.blocks.len() == MAX_BLOCK_TYPES {
            return Err(RegistryError::Full);
        }
        let block_id = BlockId(self.blocks.len() as u16);
        let added = fingerprint_of(block_type.properties.id.as_str());
        let mut taken = BlockRegistry::default();
        core::mem::swap(self, &mut taken);
        let BlockRegistry { mut blocks, mut fingerprints } = taken;
        blocks.push(block_type);
        fingerprints.push(added);
        *self = BlockRegistry { blocks, fingerprints };
        Ok(block_id)
    }

    /// The block kind with the numeric identifier `id`.
    pub fn get_block(&self, id: BlockId) -> (found: Option<&BlockType>)
        ensures
            registry_wf(self@),
            match found {
                Some(block) => id.0 < self@.len() && *block == self@[id.0 as int],
                None => id.0 >= self@.len(),
            },
    {
        proof {
            use_type_invariant(self);
        }
        if (id.0 as usize) < self.blocks.len() {
            Some(&self.blocks[id.0 as usize])
        } else {
            None
        }
    }

    /// The block kind with the name `id`.
    pub fn get_block_by_string_id(&self, id: &str) -> (found: Option<&BlockType>)
        ensures
            match found {
                Some(block) => exists|i: int|
                    0 <= i < self@.len() && self@[i] == *block && block.properties.id@ == id@,
                None => !registered(self@, id@),
            },
    {
        let name = id.to_owned();
        match self.find(&name) {
            Some(i) => Some(&self.blocks[i]),
            None => None,
        }
    }

    /// The numeric identifier of the block kind with the name `string_id`.
    pub fn get_id(&self, string_id: &str) -> (found: Option<BlockId>)
        ensures
            match found {
                Some(id) => id.0 < self@.len() && self@[id.0 as int].properties.id@ == string_id@,
                None => !registered(self@, string_id@),
            },
    {
        proof {
            use_type_invariant(self);
        }
        let name = string_id.to_owned();
        match self.find(&name) {
            Some(i) => Some(BlockId(i as u16)),
            None => None,
        }
    }

    /// The name of the block kind with the numeric identifier `id`.
    pub fn get_string_id(&self, id: BlockId) -> (found: Option<&str>)
        ensures
            match found {
                Some(name) => id.0 < self@.len() && name@ == self@[id.0 as int].properties.id@,
                None => id.0 >= self@.len(),
            },
    {
        match self.get_block(id) {
            Some(block) => Some(block.properties.id.as_str()),
            None => None,
        }
    }

    /// Every numeric identifier in use, in ascending order.
    pub fn get_all_ids(&self) -> (ids: Vec<BlockId>)
        ensures
            ids@.len() == self@.len(),
            forall|i: int| 0 <= i < ids@.len() ==> ids@[i] == BlockId(i as u16),
    {
        proof {
            use_type_invariant(self);
        }
        let mut ids: Vec<BlockId> = Vec::new();
        let mut i: usize = 0;
        while i < self.blocks.len()
            invariant
                i <= self.blocks@.len(),
                self.blocks@.len() <= 65535,
                ids@.len() == i,
                forall|j: int| 0 <= j < i ==> ids@[j] == BlockId(j as u16),
            decreases self.blocks@.len() - i,
        {
            ids.push(BlockId(i as u16));
            i += 1;
        }
        ids
    }

    /// Number of registered block kinds.
    pub fn block_count(&self) -> (n: usize)
        ensures
            n == self@.len(),
    {
        self.blocks.len()
    }
}

} // verus!
