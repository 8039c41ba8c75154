//! The map as far as it was received: blocks of nodes, and what the nodes are.

use crate::compress::{decode_stream, unknown_frame, zstd_stream};
use crate::network::wire::u16_at;
use crate::nodedef::{first_name, Aabb, FeaturesView, ManagerView, NodeBoxType, NodeDefManager};
use crate::scan::{contains_text, find};
use crate::text::{dec, push_dec, text_view, to_chars};
use crate::types::{BlockPos, IVec3, Vec3};
use std::collections::HashMap;
use vstd::arithmetic::div_mod::{lemma_fundamental_div_mod, lemma_mod_bound};
use vstd::prelude::*;

verus! {

broadcast use vstd::std_specs::hash::group_hash_axioms;

/// Nodes along the edge of a block.
pub const MAP_BLOCKSIZE: i32 = 16;

/// Nodes in a block.
pub const NODECOUNT: usize = 4096;

pub const AIR_CONTENT_ID: u16 = 0;

pub const IGNORE_CONTENT_ID: u16 = 127;

/// A node: what it is, and two parameters.
#[derive(Clone, Copy, Debug, PartialEq, Eq, Structural)]
pub struct MapNode {
    pub content: u16,
    pub param1: u8,
    pub param2: u8,
}

impl Default for MapNode {
    fn default() -> (n: Self)
        ensures
            n == (MapNode { content: 0, param1: 0, param2: 0 }),
    {
        MapNode { content: 0, param1: 0, param2: 0 }
    }
}

struct MapBlock {
    nodes: Vec<MapNode>,
}

/// Why a block was not taken.
#[derive(Debug)]
pub enum BlockError {
    /// There is no data.
    Empty,
    /// No compressed frame starts in the data.
    NoMagic,
    /// The frame could not be decompressed.
    Stream(String),
    /// The frame holds nothing.
    EmptyFrame,
    /// The content is too short for a header.
    ShortHeader,
    /// The content has no layout that is known.
    NoLayout,
}

/// The value of a [`BlockError`].
pub ghost enum BlockErrorView {
    Empty,
    NoMagic,
    Stream(Seq<char>),
    EmptyFrame,
    ShortHeader,
    NoLayout,
}

impl View for BlockError {
    type V = BlockErrorView;

    open spec fn view(&self) -> BlockErrorView {
        match *self {
            BlockError::Empty => BlockErrorView::Empty,
            BlockError::NoMagic => BlockErrorView::NoMagic,
            BlockError::Stream(e) => BlockErrorView::Stream(e@),
            BlockError::EmptyFrame => BlockErrorView::EmptyFrame,
            BlockError::ShortHeader => BlockErrorView::ShortHeader,
            BlockError::NoLayout => BlockErrorView::NoLayout,
        }
    }
}

/// What every compressed frame starts with.
pub open spec fn zstd_magic() -> Seq<u8> {
    seq![0x28u8, 0xb5u8, 0x2fu8, 0xfdu8]
}

/// The first place at or behind `at` where `needle` stands.
pub open spec fn first_place(haystack: Seq<u8>, needle: Seq<u8>, at: int) -> Option<int>
    decreases haystack.len() + 1 - at,
{
    if at + needle.len() > haystack.len() {
        None
    } else if haystack.subrange(at, at + needle.len()) == needle {
        Some(at)
    } else {
        first_place(haystack, needle, at + 1)
    }
}

fn stands_at(haystack: &[u8], at: usize, needle: &[u8]) -> (yes: bool)
    requires
        at + needle.len() <= haystack.len(),
    ensures
        yes == (haystack@.subrange(at as int, at + needle@.len()) == needle@),
{
    let mut i: usize = 0;
    while i < needle.len()
        invariant
            i <= needle.len(),
            at + needle.len() <= haystack.len(),
            forall|k: int| 0 <= k < i ==> haystack@[at + k] == #[trigger] needle@[k],
        decreases needle.len() - i,
    {
        if haystack[at + i] != needle[i] {
            assert(haystack@.subrange(at as int, at + needle@.len())[i as int] == haystack@[at + i]);
            return false;
        }
        i = i + 1;
    }
    assert(haystack@.subrange(at as int, at + needle@.len()) =~= needle@);
    true
}

/// The first place where `needle`, which is not empty, stands.
pub fn find_subslice(haystack: &[u8], needle: &[u8]) -> (at: Option<usize>)
    ensures
        match at {
            Some(i) => needle@.len() > 0 && first_place(haystack@, needle@, 0) == Some(i as int) && i
                + needle@.len() <= haystack@.len(),
            None => needle@.len() == 0 || first_place(haystack@, needle@, 0) is None,
        },
{
    if needle.len() == 0 || haystack.len() < needle.len() {
        return None;
    }
    let last: usize = haystack.len() - needle.len();
    let mut i: usize = 0;
    while i < last
        invariant
            i <= last == haystack.len() - needle.len(),
            needle@.len() > 0,
            first_place(haystack@, needle@, 0) == first_place(haystack@, needle@, i as int),
        decreases last - i,
    {
        if stands_at(haystack, i, needle) {
            return Some(i);
        }
        i = i + 1;
    }
    if stands_at(haystack, i, needle) {
        return Some(i);
    }
    assert(first_place(haystack@, needle@, i + 1) is None);
    None
}

/// What a decompressed stream is worth: something that is no frame behind a frame
/// is ignored.
pub open spec fn judged(error: Option<Seq<char>>, out: Seq<u8>) -> Result<Seq<u8>, BlockErrorView> {
    match error {
        Some(e) => if unknown_frame(e) && out.len() > 0 {
            Ok(out)
        } else {
            Err(BlockErrorView::Stream(e))
        },
        None => if out.len() == 0 {
            Err(BlockErrorView::EmptyFrame)
        } else {
            Ok(out)
        },
    }
}

pub open spec fn content_result(r: Result<Vec<u8>, BlockError>) -> Result<
    Seq<u8>,
    BlockErrorView,
> {
    match r {
        Ok(out) => Ok(out@),
        Err(e) => Err(e@),
    }
}

/// Judges a decompressed stream.
pub fn judge_stream(out: Vec<u8>, error: Option<String>) -> (r: Result<Vec<u8>, BlockError>)
    ensures
        content_result(r) == judged(text_view(error), out@),
{
    match error {
        Some(e) => {
            let known = find(to_chars(e.as_str()).as_slice(), "Unknown frame descriptor").is_some();
            if known && out.len() > 0 {
                Ok(out)
            } else {
                Err(BlockError::Stream(e))
            }
        },
        None => if out.len() == 0 {
            Err(BlockError::EmptyFrame)
        } else {
            Ok(out)
        },
    }
}

/// The content of the first compressed frame in the data.
pub open spec fn frame_content(data: Seq<u8>) -> Result<Seq<u8>, BlockErrorView> {
    match first_place(data, zstd_magic(), 0) {
        None => Err(BlockErrorView::NoMagic),
        Some(at) => judged(zstd_stream(data.skip(at)).0, zstd_stream(data.skip(at)).1),
    }
}

/// Decompresses the first frame in the data, wherever it starts.
pub fn decode_zstd_frame(data: &[u8]) -> (r: Result<Vec<u8>, BlockError>)
    ensures
        content_result(r) == frame_content(data@),
{
    let mut magic: Vec<u8> = Vec::new();
    magic.push(0x28);
    magic.push(0xb5);
    magic.push(0x2f);
    magic.push(0xfd);
    assert(magic@ =~= zstd_magic());
    match find_subslice(data, magic.as_slice()) {
        Some(at) => {
            let rest: &[u8] = &data[at..data.len()];
            assert(rest@ =~= data@.skip(at as int));
            let (out, error) = decode_stream(rest);
            judge_stream(out, error)
        },
        None => Err(BlockError::NoMagic),
    }
}

/// Whether the widths at `at` are known ones, and the nodes behind them are there.
pub open spec fn layout_at(d: Seq<u8>, at: int) -> bool {
    &&& d[at] == 1 || d[at] == 2
    &&& d[at + 1] == 2
    &&& at + 2 + NODECOUNT * (d[at] + 2) <= d.len()
}

/// Where the widths are: behind none, one, two or three bytes of header.
pub open spec fn widths_at(d: Seq<u8>) -> Option<int> {
    if layout_at(d, 0) {
        Some(0)
    } else if layout_at(d, 1) {
        Some(1)
    } else if layout_at(d, 2) {
        Some(2)
    } else if layout_at(d, 3) {
        Some(3)
    } else {
        None
    }
}

/// The nodes behind the widths at `at`: all contents, then all first parameters,
/// then all second ones.
pub open spec fn nodes_at(d: Seq<u8>, at: int) -> Seq<MapNode> {
    let start = at + 2;
    let width = d[at] as int;
    Seq::new(
        NODECOUNT as nat,
        |i: int|
            MapNode {
                content: if width == 1 {
                    d[start + i] as u16
                } else {
                    u16_at(d, start + 2 * i)
                },
                param1: d[start + width * NODECOUNT + i],
                param2: d[start + (width + 1) * NODECOUNT + i],
            },
    )
}

/// The nodes of a decompressed block.
pub open spec fn content_nodes(d: Seq<u8>) -> Result<Seq<MapNode>, BlockErrorView> {
    if d.len() < 6 {
        Err(BlockErrorView::ShortHeader)
    } else {
        match widths_at(d) {
            None => Err(BlockErrorView::NoLayout),
            Some(at) => Ok(nodes_at(d, at)),
        }
    }
}

/// The nodes of a block as it was received.
pub open spec fn block_nodes(data: Seq<u8>) -> Result<Seq<MapNode>, BlockErrorView> {
    if data.len() == 0 {
        Err(BlockErrorView::Empty)
    } else {
        match frame_content(data) {
            Err(e) => Err(e),
            Ok(content) => content_nodes(content),
        }
    }
}

fn has_layout(d: &[u8], at: usize) -> (yes: bool)
    requires
        at <= 3,
        d.len() >= 6,
    ensures
        yes == layout_at(d@, at as int),
{
    let width: usize = d[at] as usize;
    (width == 1 || width == 2) && d[at + 1] == 2 && at + 2 + NODECOUNT * (width + 2) <= d.len()
}

/// Finds the widths.
fn parse_header(d: &[u8]) -> (at: Option<usize>)
    requires
        d.len() >= 6,
    ensures
        match at {
            Some(at) => widths_at(d@) == Some(at as int) && at <= 3 && layout_at(d@, at as int),
            None => widths_at(d@) is None,
        },
{
    let mut at: usize = 0;
    while at < 4
        invariant
            at <= 4,
            d.len() >= 6,
            forall|k: int| 0 <= k < at ==> !layout_at(d@, k),
        decreases 4 - at,
    {
        if has_layout(d, at) {
            return Some(at);
        }
        at = at + 1;
    }
    None
}

fn node_from(d: &[u8], at: usize, i: usize) -> (node: MapNode)
    requires
        at <= 3,
        d.len() >= 6,
        layout_at(d@, at as int),
        i < NODECOUNT,
    ensures
        node == nodes_at(d@, at as int)[i as int],
{
    let start: usize = at + 2;
    let width: usize = d[at] as usize;
    let content: u16 = if width == 1 {
        d[start + i] as u16
    } else {
        d[start + 2 * i] as u16 * 256 + d[start + 2 * i + 1] as u16
    };
    MapNode {
        content,
        param1: d[start + width * NODECOUNT + i],
        param2: d[start + (width + 1) * NODECOUNT + i],
    }
}

pub open spec fn nodes_result(r: Result<Vec<MapNode>, BlockError>) -> Result<
    Seq<MapNode>,
    BlockErrorView,
> {
    match r {
        Ok(nodes) => Ok(nodes@),
        Err(e) => Err(e@),
    }
}

/// Reads the nodes of a decompressed block.
pub fn parse_nodes(d: &[u8]) -> (r: Result<Vec<MapNode>, BlockError>)
    ensures
        nodes_result(r) == content_nodes(d@),
{
    if d.len() < 6 {
        return Err(BlockError::ShortHeader);
    }
    let at: usize = match parse_header(d) {
        Some(at) => at,
        None => return Err(BlockError::NoLayout),
    };
    let mut nodes: Vec<MapNode> = Vec::new();
    let mut i: usize = 0;
    while i < NODECOUNT
        invariant
            i <= NODECOUNT,
            at <= 3,
            d.len() >= 6,
            layout_at(d@, at as int),
            nodes@ =~= nodes_at(d@, at as int).take(i as int),
        decreases NODECOUNT - i,
    {
        nodes.push(node_from(d, at, i));
        i = i + 1;
    }
    assert(nodes_at(d@, at as int).take(i as int) =~= nodes_at(d@, at as int));
    Ok(nodes)
}

impl MapBlock {
    fn from_serialized(data: &[u8]) -> (r: Result<MapBlock, BlockError>)
        ensures
            match r {
                Ok(block) => block_nodes(data@) == Ok::<Seq<MapNode>, BlockErrorView>(
                    block.nodes@,
                ) && block.nodes@.len() == NODECOUNT,
                Err(e) => block_nodes(data@) == Err::<Seq<MapNode>, BlockErrorView>(e@),
            },
    {
        if data.len() == 0 {
            return Err(BlockError::Empty);
        }
        let content: Vec<u8> = decode_zstd_frame(data)?;
        let nodes: Vec<MapNode> = parse_nodes(content.as_slice())?;
        Ok(MapBlock { nodes })
    }
}

/// The map as far as it is known.
pub struct World {
    blocks: HashMap<u64, MapBlock>,
    nodedef: Option<NodeDefManager>,
}

/// The value of a [`World`].
pub ghost struct WorldView {
    /// The nodes of each block that was received.
    pub blocks: Map<BlockPos, Seq<MapNode>>,
    pub nodedef: Option<ManagerView>,
}

/// A block's position in one number.
pub open spec fn packed(p: BlockPos) -> u64 {
    ((p.x + 0x8000) * 0x1_0000_0000 + (p.y + 0x8000) * 0x1_0000 + (p.z + 0x8000)) as u64
}

proof fn packed_injective(p: BlockPos, q: BlockPos)
    requires
        packed(p) == packed(q),
    ensures
        p == q,
{
    let x = p.x - q.x;
    let y = p.y - q.y;
    let z = p.z - q.z;
    assert(x * 0x1_0000_0000 + y * 0x1_0000 + z == 0);
    assert(-0xffff <= y <= 0xffff && -0xffff <= z <= 0xffff);
    assert(x == 0);
    assert(y == 0);
}

fn pack(p: BlockPos) -> (n: u64)
    ensures
        n == packed(p),
{
    (p.x as i64 + 0x8000) as u64 * 0x1_0000_0000 + (p.y as i64 + 0x8000) as u64 * 0x1_0000 + (
    p.z as i64 + 0x8000) as u64
}

spec fn known_blocks(m: Map<u64, MapBlock>) -> Map<BlockPos, Seq<MapNode>> {
    Map::new(|p: BlockPos| m.dom().contains(packed(p)), |p: BlockPos| m[packed(p)].nodes@)
}

impl View for World {
    type V = WorldView;

    closed spec fn view(&self) -> WorldView {
        WorldView {
            blocks: known_blocks(self.blocks@),
            nodedef: match self.nodedef {
                Some(m) => Some(m@),
                None => None,
            },
        }
    }
}

/// A number in the range of 16 bits, congruent to `n`.
pub open spec fn wrapped16(n: int) -> i16 {
    ((n + 0x8000) % 0x1_0000 - 0x8000) as i16
}

/// The block that a node is in.
pub open spec fn block_of(p: IVec3) -> BlockPos {
    BlockPos {
        x: wrapped16(p.x as int / 16),
        y: wrapped16(p.y as int / 16),
        z: wrapped16(p.z as int / 16),
    }
}

/// Where in its block a node is.
pub open spec fn index_in_block(p: IVec3) -> int {
    (p.z as int % 16) * 256 + (p.y as int % 16) * 16 + (p.x as int % 16)
}

/// The node at a position, if its block is known.
pub open spec fn node_at(w: WorldView, p: IVec3) -> Option<MapNode> {
    if w.blocks.dom().contains(block_of(p)) {
        Some(w.blocks[block_of(p)][index_in_block(p)])
    } else {
        None
    }
}

/// Division that rounds down.
pub fn div_floor(a: i32, b: i32) -> (q: i32)
    requires
        b > 0,
    ensures
        q == a as int / b as int,
{
    proof {
        division_stays_small(a as int, b as int);
    }
    a.checked_div_euclid(b).unwrap()
}

/// The remainder of division that rounds down.
pub fn mod_floor(a: i32, b: i32) -> (r: i32)
    requires
        b > 0,
    ensures
        r == a as int % b as int,
        0 <= r < b,
{
    a.checked_rem_euclid(b).unwrap()
}

proof fn division_stays_small(a: int, b: int)
    requires
        i32::MIN <= a <= i32::MAX,
        0 < b,
    ensures
        i32::MIN <= a / b <= i32::MAX,
{
    assert(i32::MIN <= a / b <= i32::MAX) by (nonlinear_arith)
        requires
            i32::MIN <= a <= i32::MAX,
            0 < b,
    ;
}

fn wrap16(n: i32) -> (w: i16)
    ensures
        w == wrapped16(n as int),
{
    let shifted: i64 = n as i64 + 0x1_0000_0000 + 0x8000;
    let low: i64 = (shifted as u64 % 0x1_0000) as i64;
    assert(low == (n + 0x8000) % 0x1_0000);
    (low - 0x8000) as i16
}

fn block_pos_of(p: IVec3) -> (b: BlockPos)
    ensures
        b == block_of(p),
{
    BlockPos {
        x: wrap16(div_floor(p.x, MAP_BLOCKSIZE)),
        y: wrap16(div_floor(p.y, MAP_BLOCKSIZE)),
        z: wrap16(div_floor(p.z, MAP_BLOCKSIZE)),
    }
}

fn node_index(p: IVec3) -> (i: usize)
    ensures
        i == index_in_block(p),
        i < NODECOUNT,
{
    let x: i32 = mod_floor(p.x, MAP_BLOCKSIZE);
    let y: i32 = mod_floor(p.y, MAP_BLOCKSIZE);
    let z: i32 = mod_floor(p.z, MAP_BLOCKSIZE);
    (z * 256 + y * 16 + x) as usize
}

pub open spec fn air_or_ignore(node: MapNode) -> bool {
    node.content == AIR_CONTENT_ID || node.content == IGNORE_CONTENT_ID
}

/// What a node is called: the first name that its id was given, or the id.
pub open spec fn name_of_node(w: WorldView, node: MapNode) -> Seq<char> {
    if node.content == AIR_CONTENT_ID {
        "air"@
    } else if node.content == IGNORE_CONTENT_ID {
        "ignore"@
    } else {
        let known = match w.nodedef {
            Some(m) => first_name(m.names, node.content),
            None => None,
        };
        match known {
            Some(name) => name,
            None => "content:"@ + dec(node.content as int),
        }
    }
}

/// A whole node: from minus one half to one half along each axis.
pub open spec fn full_box() -> Aabb {
    Aabb {
        min: Vec3 { x: 0xbf00_0000, y: 0xbf00_0000, z: 0xbf00_0000 },
        max: Vec3 { x: 0x3f00_0000, y: 0x3f00_0000, z: 0x3f00_0000 },
    }
}

/// The boxes that a walkable node collides with.
pub open spec fn walkable_boxes(f: FeaturesView, param2: u8) -> Seq<Aabb> {
    let shape = f.collision_box;
    match shape.box_type {
        NodeBoxType::Regular => seq![full_box()],
        NodeBoxType::Fixed | NodeBoxType::Leveled => if shape.fixed.len() > 0 {
            shape.fixed
        } else {
            seq![full_box()]
        },
        NodeBoxType::WallMounted => {
            let mounted = param2 % 8;
            if mounted == 0 || mounted == 6 {
                seq![shape.wall_top]
            } else if mounted == 1 || mounted == 7 {
                seq![shape.wall_bottom]
            } else {
                seq![shape.wall_side]
            }
        },
        NodeBoxType::Connected => if shape.fixed.len() > 0 {
            shape.fixed
        } else if shape.connected.disconnected.len() > 0 {
            shape.connected.disconnected
        } else {
            seq![full_box()]
        },
    }
}

/// The boxes that a node collides with: none where it is not walkable, and a whole
/// node where nothing is known of it.
pub open spec fn node_boxes(nodedef: Option<ManagerView>, node: MapNode) -> Seq<Aabb> {
    if node.content == AIR_CONTENT_ID {
        seq![]
    } else {
        match nodedef {
            Some(m) => if node.content < m.features.len() {
                let f = m.features[node.content as int];
                if f.walkable {
                    walkable_boxes(f, node.param2)
                } else {
                    seq![]
                }
            } else {
                seq![full_box()]
            },
            None => seq![full_box()],
        }
    }
}

/// The boxes at a position; `None` where it is not known what is there.
pub open spec fn boxes_at(w: WorldView, p: IVec3) -> Option<Seq<Aabb>> {
    match node_at(w, p) {
        None => None,
        Some(node) => if node.content == IGNORE_CONTENT_ID {
            None
        } else {
            Some(node_boxes(w.nodedef, node))
        },
    }
}

fn copy_boxes(boxes: &Vec<Aabb>) -> (out: Vec<Aabb>)
    ensures
        out@ == boxes@,
{
    let mut out: Vec<Aabb> = Vec::new();
    let mut i: usize = 0;
    while i < boxes.len()
        invariant
            i <= boxes.len(),
            out@ =~= boxes@.take(i as int),
        decreases boxes.len() - i,
    {
        out.push(boxes[i]);
        i = i + 1;
    }
    assert(boxes@.take(i as int) =~= boxes@);
    out
}

fn one_box(b: Aabb) -> (out: Vec<Aabb>)
    ensures
        out@ == seq![b],
{
    let mut out: Vec<Aabb> = Vec::new();
    out.push(b);
    assert(out@ =~= seq![b]);
    out
}

fn whole_node() -> (out: Vec<Aabb>)
    ensures
        out@ == seq![full_box()],
{
    one_box(
        Aabb {
            min: Vec3 { x: 0xbf00_0000, y: 0xbf00_0000, z: 0xbf00_0000 },
            max: Vec3 { x: 0x3f00_0000, y: 0x3f00_0000, z: 0x3f00_0000 },
        },
    )
}

impl World {
    /// Every block has all its nodes.
    pub closed spec fn wf(&self) -> bool {
        &&& forall|k: u64|
            self.blocks@.dom().contains(k) ==> (#[trigger] self.blocks@[k]).nodes@.len() == NODECOUNT
        &&& forall|k: u64| #[trigger]
            self.blocks@.dom().contains(k) ==> exists|p: BlockPos| k == packed(p)
        &&& self.blocks@.dom().finite()
    }

    pub fn new() -> (w: Self)
        ensures
            w.wf(),
            w@ == (WorldView { blocks: Map::empty(), nodedef: None }),
    {
        let w = World { blocks: HashMap::new(), nodedef: None };
        assert(w@.blocks =~= Map::empty());
        w
    }

    pub fn set_nodedef(&mut self, manager: NodeDefManager)
        requires
            old(self).wf(),
        ensures
            final(self).wf(),
            final(self)@ == (WorldView { nodedef: Some(manager@), ..old(self)@ }),
    {
        self.nodedef = Some(manager);
    }

    /// Takes a block as it was received; one that cannot be read changes nothing. The
    /// serialization version makes no difference.
    pub fn ingest_block(&mut self, pos: BlockPos, data: &[u8], _version: u8) -> (r: Result<
        (),
        BlockError,
    >)
        requires
            old(self).wf(),
        ensures
            final(self).wf(),
            match block_nodes(data@) {
                Ok(nodes) => r is Ok && final(self)@ == (WorldView {
                    blocks: old(self)@.blocks.insert(pos, nodes),
                    ..old(self)@
                }),
                Err(e) => r is Err && r->Err_0@ == e && final(self)@ == old(self)@,
            },
    {
        let block = MapBlock::from_serialized(data)?;
        let ghost before = self.blocks@;
        let ghost nodes = block.nodes@;
        self.blocks.insert(pack(pos), block);
        proof {
            assert forall|k: u64| self.blocks@.dom().contains(k) implies exists|p: BlockPos|
                k == packed(p) by {
                if k == packed(pos) {
                } else {
                    assert(before.dom().contains(k));
                }
            }
            assert forall|p: BlockPos| packed(p) == packed(pos) implies p == pos by {
                packed_injective(p, pos);
            }
            assert(self@.blocks =~= old(self)@.blocks.insert(pos, nodes));
        }
        Ok(())
    }

    /// The node at a position; `None` where its block is not known.
    pub fn get_node(&self, node_pos: IVec3) -> (node: Option<MapNode>)
        requires
            self.wf(),
        ensures
            node == node_at(self@, node_pos),
    {
        let block_pos = block_pos_of(node_pos);
        let index: usize = node_index(node_pos);
        match self.blocks.get(&pack(block_pos)) {
            Some(block) => Some(block.nodes[index]),
            None => None,
        }
    }

    /// The number of blocks that are known.
    pub fn block_count(&self) -> (n: usize)
        requires
            self.wf(),
        ensures
            n == self@.blocks.dom().len(),
    {
        proof {
            let keys = self.blocks@.dom();
            let positions = self@.blocks.dom();
            let unpack = |k: u64| choose|p: BlockPos| k == packed(p);
            assert forall|k: u64, j: u64|
                keys.contains(k) && keys.contains(j) && #[trigger] unpack(k) == #[trigger] unpack(
                    j,
                ) implies k == j by {
                assert(exists|p: BlockPos| k == packed(p));
                assert(exists|p: BlockPos| j == packed(p));
            }
            assert forall|p: BlockPos| #[trigger]
                positions.contains(p) <==> keys.map(unpack).contains(p) by {
                if positions.contains(p) {
                    let k = packed(p);
                    packed_injective(p, unpack(k));
                    assert(keys.contains(k) && unpack(k) == p);
                }
                if keys.map(unpack).contains(p) {
                    let k = choose|k: u64| keys.contains(k) && unpack(k) == p;
                    assert(exists|q: BlockPos| k == packed(q));
                }
            }
            assert(keys.map(unpack) =~= positions);
            vstd::set_lib::lemma_map_size(keys, positions, unpack);
        }
        self.blocks.len()
    }

    pub fn is_air_or_ignore(&self, node: MapNode) -> (yes: bool)
        ensures
            yes == air_or_ignore(node),
    {
        node.content == AIR_CONTENT_ID || node.content == IGNORE_CONTENT_ID
    }

    pub fn node_name(&self, node: MapNode) -> (name: String)
        ensures
            name@ == name_of_node(self@, node),
    {
        if node.content == AIR_CONTENT_ID {
            return "air".to_owned();
        }
        if node.content == IGNORE_CONTENT_ID {
            return "ignore".to_owned();
        }
        if let Some(manager) = &self.nodedef {
            let ghost names = manager@.names;
            let mut i: usize = 0;
            assert(names.skip(0) =~= names);
            while i < manager.name_to_id.len()
                invariant
                    i <= manager.name_to_id.len(),
                    names == manager@.names,
                    self@.nodedef == Some(manager@),
                    !air_or_ignore(node),
                    first_name(names, node.content) == first_name(
                        names.skip(i as int),
                        node.content,
                    ),
                decreases manager.name_to_id.len() - i,
            {
                assert(names[i as int] == (
                    manager.name_to_id@[i as int].0@,
                    manager.name_to_id@[i as int].1,
                ));
                assert(names.skip(i as int).drop_first() =~= names.skip(i + 1));
                if manager.name_to_id[i].1 == node.content {
                    return manager.name_to_id[i].0.clone();
                }
                i = i + 1;
            }
        }
        let mut name = "content:".to_owned();
        push_dec(&mut name, node.content as i64);
        name
    }

    /// The boxes at a position. `None` where the block is not known; air and nodes
    /// that are not walkable have no boxes.
    pub fn collision_boxes(&self, node_pos: IVec3) -> (boxes: Option<Vec<Aabb>>)
        requires
            self.wf(),
        ensures
            match boxes {
                Some(b) => boxes_at(self@, node_pos) == Some(b@),
                None => boxes_at(self@, node_pos) is None,
            },
    {
        let node = self.get_node(node_pos)?;
        if node.content == IGNORE_CONTENT_ID {
            return None;
        }
        let none: Vec<Aabb> = Vec::new();
        assert(none@ =~= seq![]);
        if node.content == AIR_CONTENT_ID {
            return Some(none);
        }
        if let Some(manager) = &self.nodedef {
            if let Some(features) = manager.get(node.content) {
                if !features.walkable {
                    return Some(none);
                }
                let shape = &features.collision_box;
                match shape.box_type {
                    NodeBoxType::Regular => {},
                    NodeBoxType::Fixed | NodeBoxType::Leveled => {
                        if shape.fixed.len() > 0 {
                            return Some(copy_boxes(&shape.fixed));
                        }
                    },
                    NodeBoxType::WallMounted => {
                        let mounted: u8 = node.param2 % 8;
                        return if mounted == 0 || mounted == 6 {
                            Some(one_box(shape.wall_top))
                        } else if mounted == 1 || mounted == 7 {
                            Some(one_box(shape.wall_bottom))
                        } else {
                            Some(one_box(shape.wall_side))
                        };
                    },
                    NodeBoxType::Connected => {
                        if shape.fixed.len() > 0 {
                            return Some(copy_boxes(&shape.fixed));
                        }
                        if shape.connected.disconnected.len() > 0 {
                            return Some(copy_boxes(&shape.connected.disconnected));
                        }
                    },
                }
            }
        }
        Some(whole_node())
    }
}

/// A block that was taken is what is read back from the map at its place, node by
/// node, and leaves all other blocks as they were.
pub proof fn ingested_block_is_read_back(
    w: WorldView,
    pos: BlockPos,
    nodes: Seq<MapNode>,
    p: IVec3,
)
    ensures
        node_at(WorldView { blocks: w.blocks.insert(pos, nodes), ..w }, p) == (if block_of(p)
            == pos {
            Some(nodes[index_in_block(p)])
        } else {
            node_at(w, p)
        }),
{
}

/// Every place in a block is the place of one node of it: nodes of one block with
/// the same index are the same node.
pub proof fn nodes_of_a_block_have_distinct_indices(p: IVec3, q: IVec3)
    requires
        p.x as int / 16 == q.x as int / 16,
        p.y as int / 16 == q.y as int / 16,
        p.z as int / 16 == q.z as int / 16,
        index_in_block(p) == index_in_block(q),
    ensures
        p == q,
        0 <= index_in_block(p) < NODECOUNT,
{
}

/// Division that rounds down splits a number into quotient and remainder, for
/// negative numbers too: the remainder is never negative and less than the divisor,
/// and the quotient fits.
pub proof fn floor_division_splits(a: i32, b: i32)
    requires
        b > 0,
    ensures
        a == (a as int / b as int) * b + a as int % b as int,
        0 <= a as int % b as int,
        a as int % (b as int) < b,
        i32::MIN <= a as int / b as int <= i32::MAX,
{
    division_stays_small(a as int, b as int);
    lemma_fundamental_div_mod(a as int, b as int);
    lemma_mod_bound(a as int, b as int);
    assert((a as int / b as int) * b == b * (a as int / b as int)) by (nonlinear_arith);
}

/// Every part of a walkable node's box is collided with: where the definition lists
/// parts of a fixed, leveled or connected box, the boxes at the node's position are all
/// of them, as many and in the same order, and nothing else.
pub proof fn every_part_of_a_box_collides(
    w: WorldView,
    m: ManagerView,
    p: IVec3,
    node: MapNode,
    i: int,
)
    requires
        node_at(w, p) == Some(node),
        w.nodedef == Some(m),
        node.content != 0,
        node.content != 127,
        node.content < m.features.len(),
        m.features[node.content as int].walkable,
        ({
            let shape = m.features[node.content as int].collision_box;
            &&& shape.box_type is Fixed || shape.box_type is Leveled || shape.box_type is Connected
            &&& 0 <= i < shape.fixed.len()
        }),
    ensures
        ({
            let listed = m.features[node.content as int].collision_box.fixed;
            let boxes = boxes_at(w, p);
            &&& boxes is Some
            &&& boxes->0.len() == listed.len()
            &&& boxes->0[i] == listed[i]
            &&& boxes->0.contains(listed[i])
            &&& boxes == Some(listed)
        }),
{
    let boxes = boxes_at(w, p)->0;
    assert(boxes[i] == m.features[node.content as int].collision_box.fixed[i]);
}

/// A walkable node without parts is one box: the one on the side that a wall mounted node
/// hangs on, or the whole node. The whole node reaches half a node in each direction.
pub proof fn other_walkable_nodes_are_one_box(
    w: WorldView,
    m: ManagerView,
    p: IVec3,
    node: MapNode,
)
    requires
        node_at(w, p) == Some(node),
        w.nodedef == Some(m),
        node.content != 0,
        node.content != 127,
        node.content < m.features.len(),
        m.features[node.content as int].walkable,
    ensures
        ({
            let shape = m.features[node.content as int].collision_box;
            let whole = Aabb {
                min: Vec3 { x: 0xbf00_0000, y: 0xbf00_0000, z: 0xbf00_0000 },
                max: Vec3 { x: 0x3f00_0000, y: 0x3f00_0000, z: 0x3f00_0000 },
            };
            let side = node.param2 as int % 8;
            match shape.box_type {
                NodeBoxType::Regular => boxes_at(w, p) == Some(seq![whole]),
                NodeBoxType::WallMounted => {
                    &&& boxes_at(w, p) is Some
                    &&& boxes_at(w, p)->0.len() == 1
                    &&& side == 0 || side == 6 ==> boxes_at(w, p)->0[0] == shape.wall_top
                    &&& side == 1 || side == 7 ==> boxes_at(w, p)->0[0] == shape.wall_bottom
                    &&& 2 <= side <= 5 ==> boxes_at(w, p)->0[0] == shape.wall_side
                },
                NodeBoxType::Connected => shape.fixed.len() == 0 ==> boxes_at(w, p) == Some(
                    if shape.connected.disconnected.len() > 0 {
                        shape.connected.disconnected
                    } else {
                        seq![whole]
                    },
                ),
                _ => shape.fixed.len() == 0 ==> boxes_at(w, p) == Some(seq![whole]),
            }
        }),
{
}

/// There is nothing to collide with in air and in what is not walkable, a node without
/// definition is a whole one, and nothing is said of what is not known.
pub proof fn nodes_collide_as_they_are_walkable(w: WorldView, p: IVec3)
    ensures
        boxes_at(w, p) is None <==> node_at(w, p) is None || node_at(w, p)->0.content == 127,
        boxes_at(w, p) is Some ==> ({
            let content = node_at(w, p)->0.content;
            let defined = w.nodedef is Some && content < w.nodedef->0.features.len();
            let whole = Aabb {
                min: Vec3 { x: 0xbf00_0000, y: 0xbf00_0000, z: 0xbf00_0000 },
                max: Vec3 { x: 0x3f00_0000, y: 0x3f00_0000, z: 0x3f00_0000 },
            };
            &&& boxes_at(w, p)->0.len() == 0 <==> content == 0 || (defined
                && !w.nodedef->0.features[content as int].walkable)
            &&& content != 0 && !defined ==> boxes_at(w, p) == Some(seq![whole])
        }),
{
}

/// The nodes of a block lie in it row by row along the x axis, then layer by layer along
/// the y axis, then along the z axis.
pub proof fn nodes_of_a_block_lie_in_rows(
    w: WorldView,
    b: BlockPos,
    nodes: Seq<MapNode>,
    x: int,
    y: int,
    z: int,
)
    requires
        w.blocks.dom().contains(b),
        w.blocks[b] == nodes,
        0 <= x < 16,
        0 <= y < 16,
        0 <= z < 16,
    ensures
        node_at(
            w,
            IVec3 {
                x: (16 * b.x + x) as i32,
                y: (16 * b.y + y) as i32,
                z: (16 * b.z + z) as i32,
            },
        ) == Some(nodes[x + 16 * y + 256 * z]),
{
    let p = IVec3 {
        x: (16 * b.x + x) as i32,
        y: (16 * b.y + y) as i32,
        z: (16 * b.z + z) as i32,
    };
    assert(p.x as int / 16 == b.x && p.y as int / 16 == b.y && p.z as int / 16 == b.z);
    assert(block_of(p) == b);
}

/// The content of a block: a header of its version, the widths, and all its nodes.
pub open spec fn block_content(header: Seq<u8>, nodes: Seq<MapNode>) -> Seq<u8> {
    header + seq![2u8, 2u8] + Seq::new(
        2 * nodes.len(),
        |j: int|
            if j % 2 == 0 {
                (nodes[j / 2].content / 256) as u8
            } else {
                (nodes[j / 2].content % 256) as u8
            },
    ) + Seq::new(nodes.len(), |j: int| nodes[j].param1) + Seq::new(
        nodes.len(),
        |j: int| nodes[j].param2,
    )
}

/// The nodes of a block are what its content was made of, behind any header of up to three
/// bytes that holds no widths itself.
#[verifier::rlimit(50)]
pub proof fn block_content_comes_back(header: Seq<u8>, nodes: Seq<MapNode>)
    requires
        header.len() <= 3,
        nodes.len() == 4096,
        forall|k: int|
            0 <= k < header.len() ==> (#[trigger] header[k]) != 1 && header[k] != 2,
    ensures
        content_nodes(block_content(header, nodes)) == Ok::<Seq<MapNode>, BlockErrorView>(nodes),
{
    let d = block_content(header, nodes);
    let at = header.len() as int;
    let start = at + 2;
    assert(d.len() == at + 2 + 4 * 4096);
    assert(d[at] == 2 && d[at + 1] == 2);
    assert forall|k: int| 0 <= k < at implies !#[trigger] layout_at(d, k) by {
        assert(d[k] == header[k]);
    }
    assert(layout_at(d, at));
    assert(widths_at(d) == Some(at));
    assert forall|i: int| 0 <= i < 4096 implies #[trigger] nodes_at(d, at)[i] == nodes[i] by {
        assert(d[start + 2 * i] == (nodes[i].content / 256) as u8);
        assert(d[start + 2 * i + 1] == (nodes[i].content % 256) as u8);
        assert(d[start + 2 * 4096 + i] == nodes[i].param1);
        assert(d[start + 3 * 4096 + i] == nodes[i].param2);
        let c = nodes[i].content;
        let hi = (c / 256) as u8;
        let lo = (c % 256) as u8;
        assert(u16_at(d, start + 2 * i) == c);
    }
    assert(nodes_at(d, at) =~= nodes);
}

/// What is found is the first place where the needle stands; where none is found it
/// stands nowhere.
pub proof fn first_place_is_first(haystack: Seq<u8>, needle: Seq<u8>, from: int)
    requires
        0 <= from,
    ensures
        match first_place(haystack, needle, from) {
            Some(at) => {
                &&& from <= at
                &&& at + needle.len() <= haystack.len()
                &&& haystack.subrange(at, at + needle.len()) == needle
                &&& forall|k: int|
                    from <= k < at ==> #[trigger] haystack.subrange(k, k + needle.len()) != needle
            },
            None => forall|k: int|
                from <= k && k + needle.len() <= haystack.len() ==> #[trigger] haystack.subrange(
                    k,
                    k + needle.len(),
                ) != needle,
        },
    decreases haystack.len() + 1 - from,
{
    if from + needle.len() <= haystack.len() && haystack.subrange(from, from + needle.len())
        != needle {
        first_place_is_first(haystack, needle, from + 1);
    }
}

/// A block is taken from where its frame starts: whatever stands before the frame, as
/// long as no frame starts there, makes no difference.
#[verifier::rlimit(50)]
pub proof fn bytes_before_the_frame_are_skipped(before: Seq<u8>, frame: Seq<u8>)
    requires
        frame.len() >= 4,
        frame.take(4) == seq![0x28u8, 0xb5u8, 0x2fu8, 0xfdu8],
        forall|k: int|
            0 <= k < before.len() ==> #[trigger] (before + frame).subrange(k, k + 4) != seq![
                0x28u8,
                0xb5u8,
                0x2fu8,
                0xfdu8,
            ],
    ensures
        block_nodes(before + frame) == block_nodes(frame),
        zstd_stream(frame).0 is None && zstd_stream(frame).1.len() > 0 ==> block_nodes(frame)
            == content_nodes(zstd_stream(frame).1),
        zstd_stream(frame).0 is None && zstd_stream(frame).1.len() == 0 ==> block_nodes(frame)
            == Err::<Seq<MapNode>, BlockErrorView>(BlockErrorView::EmptyFrame),
{
    let all = before + frame;
    let magic = zstd_magic();
    let n = before.len() as int;
    assert(magic.len() == 4);
    first_place_is_first(all, magic, 0);
    first_place_is_first(frame, magic, 0);
    assert(all.subrange(n, n + magic.len()) =~= frame.take(4));
    assert(frame.subrange(0, magic.len() as int) =~= frame.take(4));
    match first_place(all, magic, 0) {
        Some(at) => {
            if at < n {
                assert(all.subrange(at, at + 4) == magic);
            }
            assert(at == n);
        },
        None => {},
    }
    assert(first_place(frame, magic, 0) == Some(0int));
    assert(all.skip(n) =~= frame);
    assert(frame.skip(0) =~= frame);
}

/// Every node has a name: air and what is not loaded have their own, others the first one
/// that their id was given, and an id without a name is its own name.
pub proof fn nodes_are_named(w: WorldView, node: MapNode)
    ensures
        node.content == 0 ==> name_of_node(w, node) == "air"@ && air_or_ignore(node),
        node.content == 127 ==> name_of_node(w, node) == "ignore"@ && air_or_ignore(node),
        node.content != 0 && node.content != 127 ==> {
            &&& !air_or_ignore(node)
            &&& w.nodedef is Some && first_name(w.nodedef->0.names, node.content) is Some
                ==> Some(name_of_node(w, node)) == first_name(w.nodedef->0.names, node.content)
            &&& w.nodedef is None || first_name(w.nodedef->0.names, node.content) is None
                ==> name_of_node(w, node) == "content:"@ + dec(node.content as int)
        },
{
}

/// What was decompressed counts where the stream ended well, or where only something that is no
/// frame followed; nothing at all never counts.
pub proof fn rubbish_behind_a_frame_is_ignored(out: Seq<u8>, error: Seq<char>)
    ensures
        judged(None, out) == if out.len() > 0 {
            Ok::<Seq<u8>, BlockErrorView>(out)
        } else {
            Err(BlockErrorView::EmptyFrame)
        },
        contains_text(error, "Unknown frame descriptor"@) && out.len() > 0 ==> judged(
            Some(error),
            out,
        ) == Ok::<Seq<u8>, BlockErrorView>(out),
        !contains_text(error, "Unknown frame descriptor"@) || out.len() == 0 ==> judged(
            Some(error),
            out,
        ) == Err::<Seq<u8>, BlockErrorView>(BlockErrorView::Stream(error)),
{
}

/// A block without data, without a frame, or with too little in it is refused, each for its own
/// reason.
pub proof fn broken_blocks_are_refused(data: Seq<u8>)
    ensures
        data.len() == 0 ==> block_nodes(data) == Err::<Seq<MapNode>, BlockErrorView>(
            BlockErrorView::Empty,
        ),
        data.len() > 0 && (forall|k: int|
            0 <= k && k + 4 <= data.len() ==> #[trigger] data.subrange(k, k + 4) != seq![
                0x28u8,
                0xb5u8,
                0x2fu8,
                0xfdu8,
            ]) ==> block_nodes(data) == Err::<Seq<MapNode>, BlockErrorView>(
            BlockErrorView::NoMagic,
        ),
        data.len() < 6 ==> content_nodes(data) == Err::<Seq<MapNode>, BlockErrorView>(
            BlockErrorView::ShortHeader,
        ),
        6 <= data.len() < 12290 ==> content_nodes(data) == Err::<Seq<MapNode>, BlockErrorView>(
            BlockErrorView::NoLayout,
        ),
{
    first_place_is_first(data, zstd_magic(), 0);
    if let Some(at) = first_place(data, zstd_magic(), 0) {
        assert(data.subrange(at, at + 4) == zstd_magic());
    }
}

/// A block's place wraps around where it does not fit, and is itself where it does.
pub proof fn far_blocks_wrap_around(n: int)
    ensures
        (wrapped16(n) - n) % 0x1_0000 == 0,
        -0x8000 <= n < 0x8000 ==> wrapped16(n) == n,
{
}

} // verus!
