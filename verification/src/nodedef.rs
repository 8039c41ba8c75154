//! Node definitions, as the server announces them.

use crate::codec::{long_bytes_in, text_in, ByteReader, OutOfBounds};
use crate::compress::{decode_all, zstd_content};
use crate::network::wire::{
    be16, be32, bytes_field, bytes_in, numbers_come_back, part_between, regrouped,
    short_bytes_are_whole, signed16, signed_numbers_come_back, u16_in, u32_at, u32_in, u8_in,
    units_be, units_come_back, units_in, unsigned16,
};
use crate::text::utf8_lossy;
use crate::types::Vec3;
use vstd::prelude::*;

verus! {

/// A box; its corners are single precision bit patterns.
#[derive(Clone, Copy, Debug, PartialEq, Eq, Structural)]
pub struct Aabb {
    pub min: Vec3,
    pub max: Vec3,
}

/// The bit pattern of a NaN.
pub open spec fn nan_bits(bits: u32) -> bool {
    bits % 0x8000_0000 > 0x7f80_0000
}

/// Numbers that are no NaN are ordered as these keys are; the two zeros have one key.
pub open spec fn order_key(bits: u32) -> int {
    if bits < 0x8000_0000 {
        bits as int
    } else {
        0x8000_0000 - bits
    }
}

/// The lesser of two numbers; a NaN counts for nothing.
pub open spec fn min_bits(a: u32, b: u32) -> u32 {
    if nan_bits(a) || (!nan_bits(b) && order_key(b) < order_key(a)) {
        b
    } else {
        a
    }
}

/// The greater of two numbers; a NaN counts for nothing.
pub open spec fn max_bits(a: u32, b: u32) -> u32 {
    if nan_bits(a) || (!nan_bits(b) && order_key(b) > order_key(a)) {
        b
    } else {
        a
    }
}

fn is_nan(bits: u32) -> (nan: bool)
    ensures
        nan == nan_bits(bits),
{
    bits % 0x8000_0000 > 0x7f80_0000
}

fn key(bits: u32) -> (k: i64)
    ensures
        k == order_key(bits),
{
    if bits < 0x8000_0000 {
        bits as i64
    } else {
        0x8000_0000 - bits as i64
    }
}

fn least(a: u32, b: u32) -> (m: u32)
    ensures
        m == min_bits(a, b),
{
    if is_nan(a) || (!is_nan(b) && key(b) < key(a)) {
        b
    } else {
        a
    }
}

fn greatest(a: u32, b: u32) -> (m: u32)
    ensures
        m == max_bits(a, b),
{
    if is_nan(a) || (!is_nan(b) && key(b) > key(a)) {
        b
    } else {
        a
    }
}

/// The box grown to hold a point.
pub open spec fn grown(a: Aabb, p: Vec3) -> Aabb {
    Aabb {
        min: Vec3 {
            x: min_bits(a.min.x, p.x),
            y: min_bits(a.min.y, p.y),
            z: min_bits(a.min.z, p.z),
        },
        max: Vec3 {
            x: max_bits(a.max.x, p.x),
            y: max_bits(a.max.y, p.y),
            z: max_bits(a.max.z, p.z),
        },
    }
}

impl Aabb {
    /// Grows the box to hold a point.
    pub fn add_point(&mut self, p: Vec3)
        ensures
            *final(self) == grown(*old(self), p),
    {
        let min = Vec3 {
            x: least(self.min.x, p.x),
            y: least(self.min.y, p.y),
            z: least(self.min.z, p.z),
        };
        let max = Vec3 {
            x: greatest(self.max.x, p.x),
            y: greatest(self.max.y, p.y),
            z: greatest(self.max.z, p.z),
        };
        *self = Aabb { min, max };
    }

    /// Grows the box to hold another one.
    pub fn add_box(&mut self, other: Aabb)
        ensures
            *final(self) == grown(grown(*old(self), other.min), other.max),
    {
        self.add_point(other.min);
        self.add_point(other.max);
    }
}

/// A box without extent.
pub open spec fn no_box() -> Aabb {
    Aabb { min: Vec3 { x: 0, y: 0, z: 0 }, max: Vec3 { x: 0, y: 0, z: 0 } }
}

impl Default for Aabb {
    fn default() -> (a: Self)
        ensures
            a == no_box(),
    {
        Aabb { min: Vec3 { x: 0, y: 0, z: 0 }, max: Vec3 { x: 0, y: 0, z: 0 } }
    }
}

/// A colour with its opacity.
#[derive(Clone, Copy, Debug, PartialEq, Eq, Structural)]
pub struct Color {
    pub r: u8,
    pub g: u8,
    pub b: u8,
    pub a: u8,
}

impl Default for Color {
    fn default() -> (c: Self)
        ensures
            c == (Color { r: 0, g: 0, b: 0, a: 0 }),
    {
        Color { r: 0, g: 0, b: 0, a: 0 }
    }
}

#[derive(Clone, Copy, Debug, PartialEq, Eq, Structural)]
pub enum NodeBoxType {
    Regular,
    Fixed,
    WallMounted,
    Leveled,
    Connected,
}

impl Default for NodeBoxType {
    fn default() -> (d: Self)
        ensures
            d == NodeBoxType::Regular,
    {
        NodeBoxType::Regular
    }
}

/// The shape of a node.
#[derive(Clone, Debug)]
pub struct NodeBox {
    pub box_type: NodeBoxType,
    pub fixed: Vec<Aabb>,
    pub wall_top: Aabb,
    pub wall_bottom: Aabb,
    pub wall_side: Aabb,
    pub connected: ConnectedNodeBox,
}

/// The boxes of a node that depends on its neighbours.
#[derive(Clone, Debug)]
pub struct ConnectedNodeBox {
    pub connect_top: Vec<Aabb>,
    pub connect_bottom: Vec<Aabb>,
    pub connect_front: Vec<Aabb>,
    pub connect_left: Vec<Aabb>,
    pub connect_back: Vec<Aabb>,
    pub connect_right: Vec<Aabb>,
    pub disconnected_top: Vec<Aabb>,
    pub disconnected_bottom: Vec<Aabb>,
    pub disconnected_front: Vec<Aabb>,
    pub disconnected_left: Vec<Aabb>,
    pub disconnected_back: Vec<Aabb>,
    pub disconnected_right: Vec<Aabb>,
    pub disconnected: Vec<Aabb>,
    pub disconnected_sides: Vec<Aabb>,
}

#[derive(Clone, Copy, Debug, PartialEq, Eq, Structural)]
pub enum ParamType2 {
    NotUsed,
    Facedir,
    WallMounted,
    Leveled,
    FourDir,
    DegRotate,
    FlowingLiquid,
    ColoredFacedir,
    ColoredWallMounted,
    ColoredFourDir,
    ColoredDegRotate,
}

impl Default for ParamType2 {
    fn default() -> (d: Self)
        ensures
            d == ParamType2::NotUsed,
    {
        ParamType2::NotUsed
    }
}

#[derive(Clone, Copy, Debug, PartialEq, Eq, Structural)]
pub enum NodeDrawType {
    Normal,
    Airlike,
    Liquid,
    FlowingLiquid,
    Glasslike,
    Allfaces,
    AllfacesOptional,
    Torchlike,
    Signlike,
    Plantlike,
    Firelike,
    Fencelike,
    Raillike,
    Nodebox,
    Mesh,
    GlasslikeFramed,
    GlasslikeFramedOptional,
    AllfacesOptionalVertical,
    PlantlikeRooted,
}

impl Default for NodeDrawType {
    fn default() -> (d: Self)
        ensures
            d == NodeDrawType::Normal,
    {
        NodeDrawType::Normal
    }
}

#[derive(Clone, Copy, Debug, PartialEq, Eq, Structural)]
pub enum LiquidType {
    NotLiquid,
    Source,
    Flowing,
}

impl Default for LiquidType {
    fn default() -> (d: Self)
        ensures
            d == LiquidType::NotLiquid,
    {
        LiquidType::NotLiquid
    }
}

/// What is known of a kind of node.
#[derive(Clone, Debug)]
pub struct ContentFeatures {
    pub walkable: bool,
    pub climbable: bool,
    pub liquid_move_physics: bool,
    pub move_resistance: u8,
    pub node_box: NodeBox,
    pub collision_box: NodeBox,
    pub selection_box: NodeBox,
    pub param_type_2: ParamType2,
    pub drawtype: NodeDrawType,
    pub leveled: u8,
    pub leveled_max: u8,
    pub liquid_type: LiquidType,
    pub liquid_alternative_flowing_id: u16,
    pub liquid_alternative_source_id: u16,
    pub connect_sides: u8,
    pub connects_to_ids: Vec<u16>,
    pub groups: Vec<(String, i16)>,
}

/// The value of a [`ConnectedNodeBox`].
pub ghost struct ConnectedView {
    pub connect_top: Seq<Aabb>,
    pub connect_bottom: Seq<Aabb>,
    pub connect_front: Seq<Aabb>,
    pub connect_left: Seq<Aabb>,
    pub connect_back: Seq<Aabb>,
    pub connect_right: Seq<Aabb>,
    pub disconnected_top: Seq<Aabb>,
    pub disconnected_bottom: Seq<Aabb>,
    pub disconnected_front: Seq<Aabb>,
    pub disconnected_left: Seq<Aabb>,
    pub disconnected_back: Seq<Aabb>,
    pub disconnected_right: Seq<Aabb>,
    pub disconnected: Seq<Aabb>,
    pub disconnected_sides: Seq<Aabb>,
}

impl View for ConnectedNodeBox {
    type V = ConnectedView;

    open spec fn view(&self) -> ConnectedView {
        ConnectedView {
            connect_top: self.connect_top@,
            connect_bottom: self.connect_bottom@,
            connect_front: self.connect_front@,
            connect_left: self.connect_left@,
            connect_back: self.connect_back@,
            connect_right: self.connect_right@,
            disconnected_top: self.disconnected_top@,
            disconnected_bottom: self.disconnected_bottom@,
            disconnected_front: self.disconnected_front@,
            disconnected_left: self.disconnected_left@,
            disconnected_back: self.disconnected_back@,
            disconnected_right: self.disconnected_right@,
            disconnected: self.disconnected@,
            disconnected_sides: self.disconnected_sides@,
        }
    }
}

/// The value of a [`NodeBox`].
pub ghost struct BoxView {
    pub box_type: NodeBoxType,
    pub fixed: Seq<Aabb>,
    pub wall_top: Aabb,
    pub wall_bottom: Aabb,
    pub wall_side: Aabb,
    pub connected: ConnectedView,
}

impl View for NodeBox {
    type V = BoxView;

    open spec fn view(&self) -> BoxView {
        BoxView {
            box_type: self.box_type,
            fixed: self.fixed@,
            wall_top: self.wall_top,
            wall_bottom: self.wall_bottom,
            wall_side: self.wall_side,
            connected: self.connected@,
        }
    }
}

pub open spec fn group_views(groups: Seq<(String, i16)>) -> Seq<(Seq<char>, i16)> {
    groups.map_values(|g: (String, i16)| (g.0@, g.1))
}

/// The value of a [`ContentFeatures`].
pub ghost struct FeaturesView {
    pub walkable: bool,
    pub climbable: bool,
    pub liquid_move_physics: bool,
    pub move_resistance: u8,
    pub node_box: BoxView,
    pub collision_box: BoxView,
    pub selection_box: BoxView,
    pub param_type_2: ParamType2,
    pub drawtype: NodeDrawType,
    pub leveled: u8,
    pub leveled_max: u8,
    pub liquid_type: LiquidType,
    pub liquid_alternative_flowing_id: u16,
    pub liquid_alternative_source_id: u16,
    pub connect_sides: u8,
    pub connects_to_ids: Seq<u16>,
    pub groups: Seq<(Seq<char>, i16)>,
}

impl View for ContentFeatures {
    type V = FeaturesView;

    open spec fn view(&self) -> FeaturesView {
        FeaturesView {
            walkable: self.walkable,
            climbable: self.climbable,
            liquid_move_physics: self.liquid_move_physics,
            move_resistance: self.move_resistance,
            node_box: self.node_box@,
            collision_box: self.collision_box@,
            selection_box: self.selection_box@,
            param_type_2: self.param_type_2,
            drawtype: self.drawtype,
            leveled: self.leveled,
            leveled_max: self.leveled_max,
            liquid_type: self.liquid_type,
            liquid_alternative_flowing_id: self.liquid_alternative_flowing_id,
            liquid_alternative_source_id: self.liquid_alternative_source_id,
            connect_sides: self.connect_sides,
            connects_to_ids: self.connects_to_ids@,
            groups: group_views(self.groups@),
        }
    }
}

pub open spec fn unconnected() -> ConnectedView {
    ConnectedView {
        connect_top: seq![],
        connect_bottom: seq![],
        connect_front: seq![],
        connect_left: seq![],
        connect_back: seq![],
        connect_right: seq![],
        disconnected_top: seq![],
        disconnected_bottom: seq![],
        disconnected_front: seq![],
        disconnected_left: seq![],
        disconnected_back: seq![],
        disconnected_right: seq![],
        disconnected: seq![],
        disconnected_sides: seq![],
    }
}

/// A shape of the given type without boxes.
pub open spec fn blank_box(box_type: NodeBoxType) -> BoxView {
    BoxView {
        box_type,
        fixed: seq![],
        wall_top: no_box(),
        wall_bottom: no_box(),
        wall_side: no_box(),
        connected: unconnected(),
    }
}

/// What holds of a node that was not defined.
pub open spec fn undefined_features() -> FeaturesView {
    FeaturesView {
        walkable: false,
        climbable: false,
        liquid_move_physics: false,
        move_resistance: 0,
        node_box: blank_box(NodeBoxType::Regular),
        collision_box: blank_box(NodeBoxType::Regular),
        selection_box: blank_box(NodeBoxType::Regular),
        param_type_2: ParamType2::NotUsed,
        drawtype: NodeDrawType::Normal,
        leveled: 0,
        leveled_max: 0,
        liquid_type: LiquidType::NotLiquid,
        liquid_alternative_flowing_id: 0,
        liquid_alternative_source_id: 0,
        connect_sides: 0,
        connects_to_ids: seq![],
        groups: seq![],
    }
}

impl Default for ConnectedNodeBox {
    fn default() -> (c: Self)
        ensures
            c@ == unconnected(),
    {
        let c = ConnectedNodeBox {
            connect_top: Vec::new(),
            connect_bottom: Vec::new(),
            connect_front: Vec::new(),
            connect_left: Vec::new(),
            connect_back: Vec::new(),
            connect_right: Vec::new(),
            disconnected_top: Vec::new(),
            disconnected_bottom: Vec::new(),
            disconnected_front: Vec::new(),
            disconnected_left: Vec::new(),
            disconnected_back: Vec::new(),
            disconnected_right: Vec::new(),
            disconnected: Vec::new(),
            disconnected_sides: Vec::new(),
        };
        assert(Seq::<Aabb>::empty() =~= seq![]);
        c
    }
}

fn new_box(box_type: NodeBoxType) -> (b: NodeBox)
    ensures
        b@ == blank_box(box_type),
{
    NodeBox {
        box_type,
        fixed: Vec::new(),
        wall_top: Aabb::default(),
        wall_bottom: Aabb::default(),
        wall_side: Aabb::default(),
        connected: ConnectedNodeBox::default(),
    }
}

impl Default for NodeBox {
    fn default() -> (b: Self)
        ensures
            b@ == blank_box(NodeBoxType::Regular),
    {
        new_box(NodeBoxType::default())
    }
}

impl Default for ContentFeatures {
    fn default() -> (f: Self)
        ensures
            f@ == undefined_features(),
    {
        let f = ContentFeatures {
            walkable: false,
            climbable: false,
            liquid_move_physics: false,
            move_resistance: 0,
            node_box: new_box(NodeBoxType::Regular),
            collision_box: new_box(NodeBoxType::Regular),
            selection_box: new_box(NodeBoxType::Regular),
            param_type_2: ParamType2::NotUsed,
            drawtype: NodeDrawType::Normal,
            leveled: 0,
            leveled_max: 0,
            liquid_type: LiquidType::NotLiquid,
            liquid_alternative_flowing_id: 0,
            liquid_alternative_source_id: 0,
            connect_sides: 0,
            connects_to_ids: Vec::new(),
            groups: Vec::new(),
        };
        assert(group_views(f.groups@) =~= seq![]);
        f
    }
}

/// Why definitions could not be read.
#[derive(Clone, Copy, Debug, PartialEq, Eq, Structural)]
pub enum DefFault {
    /// The data ends too early.
    OutOfBounds,
    ManagerVersion(u8),
    FeaturesVersion(u8),
    TileCount(u8),
    TileVersion(u8),
    BoxVersion(u8),
}

fn out_of_bounds(_e: OutOfBounds) -> (f: DefFault)
    ensures
        f == DefFault::OutOfBounds,
{
    DefFault::OutOfBounds
}

pub open spec fn param_type_2_of(b: u8) -> ParamType2 {
    if b == 2 {
        ParamType2::Facedir
    } else if b == 3 {
        ParamType2::WallMounted
    } else if b == 8 {
        ParamType2::Leveled
    } else if b == 9 {
        ParamType2::FourDir
    } else if b == 10 {
        ParamType2::DegRotate
    } else if b == 11 {
        ParamType2::FlowingLiquid
    } else if b == 12 {
        ParamType2::ColoredFacedir
    } else if b == 13 {
        ParamType2::ColoredWallMounted
    } else if b == 14 {
        ParamType2::ColoredFourDir
    } else if b == 15 {
        ParamType2::ColoredDegRotate
    } else {
        ParamType2::NotUsed
    }
}

fn to_param_type_2(b: u8) -> (t: ParamType2)
    ensures
        t == param_type_2_of(b),
{
    match b {
        2 => ParamType2::Facedir,
        3 => ParamType2::WallMounted,
        8 => ParamType2::Leveled,
        9 => ParamType2::FourDir,
        10 => ParamType2::DegRotate,
        11 => ParamType2::FlowingLiquid,
        12 => ParamType2::ColoredFacedir,
        13 => ParamType2::ColoredWallMounted,
        14 => ParamType2::ColoredFourDir,
        15 => ParamType2::ColoredDegRotate,
        _ => ParamType2::NotUsed,
    }
}

pub open spec fn drawtype_of(b: u8) -> NodeDrawType {
    if b == 1 {
        NodeDrawType::Airlike
    } else if b == 2 {
        NodeDrawType::Liquid
    } else if b == 3 {
        NodeDrawType::FlowingLiquid
    } else if b == 4 {
        NodeDrawType::Glasslike
    } else if b == 5 {
        NodeDrawType::Allfaces
    } else if b == 6 {
        NodeDrawType::AllfacesOptional
    } else if b == 7 {
        NodeDrawType::Torchlike
    } else if b == 8 {
        NodeDrawType::Signlike
    } else if b == 9 {
        NodeDrawType::Plantlike
    } else if b == 10 {
        NodeDrawType::Firelike
    } else if b == 11 {
        NodeDrawType::Fencelike
    } else if b == 12 {
        NodeDrawType::Raillike
    } else if b == 13 {
        NodeDrawType::Nodebox
    } else if b == 14 {
        NodeDrawType::Mesh
    } else if b == 15 {
        NodeDrawType::GlasslikeFramed
    } else if b == 16 {
        NodeDrawType::GlasslikeFramedOptional
    } else if b == 17 {
        NodeDrawType::AllfacesOptionalVertical
    } else if b == 18 {
        NodeDrawType::PlantlikeRooted
    } else {
        NodeDrawType::Normal
    }
}

fn to_drawtype(b: u8) -> (t: NodeDrawType)
    ensures
        t == drawtype_of(b),
{
    match b {
        1 => NodeDrawType::Airlike,
        2 => NodeDrawType::Liquid,
        3 => NodeDrawType::FlowingLiquid,
        4 => NodeDrawType::Glasslike,
        5 => NodeDrawType::Allfaces,
        6 => NodeDrawType::AllfacesOptional,
        7 => NodeDrawType::Torchlike,
        8 => NodeDrawType::Signlike,
        9 => NodeDrawType::Plantlike,
        10 => NodeDrawType::Firelike,
        11 => NodeDrawType::Fencelike,
        12 => NodeDrawType::Raillike,
        13 => NodeDrawType::Nodebox,
        14 => NodeDrawType::Mesh,
        15 => NodeDrawType::GlasslikeFramed,
        16 => NodeDrawType::GlasslikeFramedOptional,
        17 => NodeDrawType::AllfacesOptionalVertical,
        18 => NodeDrawType::PlantlikeRooted,
        _ => NodeDrawType::Normal,
    }
}

pub open spec fn liquid_type_of(b: u8) -> LiquidType {
    if b == 1 {
        LiquidType::Source
    } else if b == 2 {
        LiquidType::Flowing
    } else {
        LiquidType::NotLiquid
    }
}

pub open spec fn box_type_of(b: u8) -> NodeBoxType {
    if b == 1 {
        NodeBoxType::Fixed
    } else if b == 2 {
        NodeBoxType::WallMounted
    } else if b == 3 {
        NodeBoxType::Leveled
    } else if b == 4 {
        NodeBoxType::Connected
    } else {
        NodeBoxType::Regular
    }
}

/// How many bytes an animation has behind its type.
pub open spec fn animation_len(anim: u8) -> int {
    if anim == 1 {
        8
    } else if anim == 2 {
        6
    } else {
        0
    }
}

/// How many bytes the flags of a tile announce: a colour, a scale, an alignment.
pub open spec fn flagged_len(flags: u16) -> int {
    (if (flags / 8) % 2 == 1 { 3int } else { 0 }) + (if (flags / 16) % 2 == 1 { 1int } else { 0 })
        + (if (flags / 32) % 2 == 1 { 1int } else { 0 })
}

/// Where the tile that starts at `at` ends.
pub open spec fn tile_end(b: Seq<u8>, at: int) -> Result<int, DefFault> {
    match u8_in(b, at) {
        None => Err(DefFault::OutOfBounds),
        Some((version, name)) => if version < 6 {
            Err(DefFault::TileVersion(version))
        } else {
            match bytes_in(b, name) {
                None => Err(DefFault::OutOfBounds),
                Some((_, anim)) => match u8_in(b, anim) {
                    None => Err(DefFault::OutOfBounds),
                    Some((kind, frames)) => match u16_in(b, frames + animation_len(kind)) {
                        None => Err(DefFault::OutOfBounds),
                        Some((flags, extra)) => if extra + flagged_len(flags) <= b.len() {
                            Ok(extra + flagged_len(flags))
                        } else {
                            Err(DefFault::OutOfBounds)
                        },
                    },
                },
            }
        },
    }
}

/// Where `count` tiles end.
pub open spec fn tiles_end(b: Seq<u8>, at: int, count: nat) -> Result<int, DefFault>
    decreases count,
{
    if count == 0 {
        Ok(at)
    } else {
        match tile_end(b, at) {
            Ok(next) => tiles_end(b, next, (count - 1) as nat),
            Err(e) => Err(e),
        }
    }
}

fn skip_tile_animation(reader: &mut ByteReader) -> (r: Result<(), DefFault>)
    ensures
        final(reader).bytes() == old(reader).bytes(),
        match u8_in(old(reader).bytes(), old(reader).at()) {
            None => r == Err::<(), DefFault>(DefFault::OutOfBounds),
            Some((kind, frames)) => if frames + animation_len(kind) <= old(reader).bytes().len() {
                r is Ok && final(reader).at() == frames + animation_len(kind)
            } else {
                r == Err::<(), DefFault>(DefFault::OutOfBounds)
            },
        },
{
    let kind: u8 = match reader.read_u8() {
        Ok(v) => v,
        Err(e) => return Err(out_of_bounds(e)),
    };
    let len: usize = if kind == 1 { 8 } else if kind == 2 { 6 } else { 0 };
    match reader.skip(len) {
        Ok(()) => Ok(()),
        Err(e) => Err(out_of_bounds(e)),
    }
}

fn skip_tiledef(reader: &mut ByteReader) -> (r: Result<(), DefFault>)
    ensures
        final(reader).bytes() == old(reader).bytes(),
        match tile_end(old(reader).bytes(), old(reader).at()) {
            Ok(end) => r is Ok && final(reader).at() == end,
            Err(e) => r == Err::<(), DefFault>(e),
        },
{
    let version: u8 = match reader.read_u8() {
        Ok(v) => v,
        Err(e) => return Err(out_of_bounds(e)),
    };
    if version < 6 {
        return Err(DefFault::TileVersion(version));
    }
    match reader.read_bytes16() {
        Ok(_) => {},
        Err(e) => return Err(out_of_bounds(e)),
    }
    skip_tile_animation(reader)?;
    let flags: u16 = match reader.read_u16() {
        Ok(v) => v,
        Err(e) => return Err(out_of_bounds(e)),
    };
    let mut extra: usize = 0;
    if (flags / 8) % 2 == 1 {
        extra = extra + 3;
    }
    if (flags / 16) % 2 == 1 {
        extra = extra + 1;
    }
    if (flags / 32) % 2 == 1 {
        extra = extra + 1;
    }
    match reader.skip(extra) {
        Ok(()) => Ok(()),
        Err(e) => Err(out_of_bounds(e)),
    }
}

fn skip_tiledefs(reader: &mut ByteReader, count: u8) -> (r: Result<(), DefFault>)
    ensures
        final(reader).bytes() == old(reader).bytes(),
        match tiles_end(old(reader).bytes(), old(reader).at(), count as nat) {
            Ok(end) => r is Ok && final(reader).at() == end,
            Err(e) => r == Err::<(), DefFault>(e),
        },
{
    let mut i: u8 = 0;
    while i < count
        invariant
            i <= count,
            reader.bytes() == old(reader).bytes(),
            tiles_end(old(reader).bytes(), old(reader).at(), count as nat) == tiles_end(
                reader.bytes(),
                reader.at(),
                (count - i) as nat,
            ),
        decreases count - i,
    {
        skip_tiledef(reader)?;
        i = i + 1;
    }
    Ok(())
}

pub open spec fn vec3_at(b: Seq<u8>, at: int) -> Vec3 {
    Vec3 { x: u32_at(b, at), y: u32_at(b, at + 4), z: u32_at(b, at + 8) }
}

pub open spec fn aabb_at(b: Seq<u8>, at: int) -> Aabb {
    Aabb { min: vec3_at(b, at), max: vec3_at(b, at + 12) }
}

/// Boxes behind their 16 bit count; each takes 24 bytes.
pub open spec fn aabbs_in(b: Seq<u8>, at: int) -> Option<(Seq<Aabb>, int)> {
    match u16_in(b, at) {
        None => None,
        Some((count, start)) => if start + 24 * count <= b.len() {
            Some((Seq::new(count as nat, |k: int| aabb_at(b, start + 24 * k)), start + 24 * count))
        } else {
            None
        },
    }
}

/// `count` lists of boxes, one behind the other.
pub open spec fn aabb_lists_in(b: Seq<u8>, at: int, count: nat) -> Option<(Seq<Seq<Aabb>>, int)>
    decreases count,
{
    if count == 0 {
        Some((seq![], at))
    } else {
        match aabb_lists_in(b, at, (count - 1) as nat) {
            None => None,
            Some((before, next)) => match aabbs_in(b, next) {
                None => None,
                Some((list, end)) => Some((before.push(list), end)),
            },
        }
    }
}

/// A shape: a version, a type, and what the type asks for.
pub open spec fn box_in(b: Seq<u8>, at: int) -> Result<(BoxView, int), DefFault> {
    match u8_in(b, at) {
        None => Err(DefFault::OutOfBounds),
        Some((version, _)) => if version < 6 {
            Err(DefFault::BoxVersion(version))
        } else if at + 2 > b.len() {
            Err(DefFault::OutOfBounds)
        } else {
            let kind = box_type_of(b[at + 1]);
            let start = at + 2;
            match kind {
                NodeBoxType::Regular => Ok((blank_box(kind), start)),
                NodeBoxType::Fixed | NodeBoxType::Leveled => match aabbs_in(b, start) {
                    None => Err(DefFault::OutOfBounds),
                    Some((fixed, end)) => Ok((BoxView { fixed, ..blank_box(kind) }, end)),
                },
                NodeBoxType::WallMounted => if start + 72 > b.len() {
                    Err(DefFault::OutOfBounds)
                } else {
                    Ok(
                        (
                            BoxView {
                                wall_top: aabb_at(b, start),
                                wall_bottom: aabb_at(b, start + 24),
                                wall_side: aabb_at(b, start + 48),
                                ..blank_box(kind)
                            },
                            start + 72,
                        ),
                    )
                },
                NodeBoxType::Connected => match aabb_lists_in(b, start, 15) {
                    None => Err(DefFault::OutOfBounds),
                    Some((lists, end)) => Ok(
                        (
                            BoxView {
                                fixed: lists[0],
                                connected: ConnectedView {
                                    connect_top: lists[1],
                                    connect_bottom: lists[2],
                                    connect_front: lists[3],
                                    connect_left: lists[4],
                                    connect_back: lists[5],
                                    connect_right: lists[6],
                                    disconnected_top: lists[7],
                                    disconnected_bottom: lists[8],
                                    disconnected_front: lists[9],
                                    disconnected_left: lists[10],
                                    disconnected_back: lists[11],
                                    disconnected_right: lists[12],
                                    disconnected: lists[13],
                                    disconnected_sides: lists[14],
                                },
                                ..blank_box(kind)
                            },
                            end,
                        ),
                    ),
                },
            }
        },
    }
}

fn read_aabb(reader: &mut ByteReader) -> (r: Result<Aabb, OutOfBounds>)
    ensures
        final(reader).bytes() == old(reader).bytes(),
        match r {
            Ok(a) => old(reader).at() + 24 <= old(reader).bytes().len() && a == aabb_at(
                old(reader).bytes(),
                old(reader).at(),
            ) && final(reader).at() == old(reader).at() + 24,
            Err(_) => old(reader).at() + 24 > old(reader).bytes().len(),
        },
{
    let min = reader.read_vec3_f32()?;
    let max = reader.read_vec3_f32()?;
    Ok(Aabb { min, max })
}

fn read_aabb_vec(reader: &mut ByteReader) -> (r: Result<Vec<Aabb>, OutOfBounds>)
    ensures
        final(reader).bytes() == old(reader).bytes(),
        match r {
            Ok(list) => aabbs_in(old(reader).bytes(), old(reader).at()) == Some(
                (list@, final(reader).at()),
            ),
            Err(_) => aabbs_in(old(reader).bytes(), old(reader).at()) is None,
        },
{
    let count: u16 = reader.read_u16()?;
    let ghost b = reader.bytes();
    let ghost start = reader.at();
    let mut out: Vec<Aabb> = Vec::new();
    let mut i: u16 = 0;
    while i < count
        invariant
            i <= count,
            reader.bytes() == b,
            b == old(reader).bytes(),
            u16_in(b, old(reader).at()) == Some((count, start)),
            reader.at() == start + 24 * i,
            reader.at() <= b.len(),
            out@ =~= Seq::new(i as nat, |k: int| aabb_at(b, start + 24 * k)),
        decreases count - i,
    {
        out.push(read_aabb(reader)?);
        i = i + 1;
    }
    Ok(out)
}

fn read_connected(reader: &mut ByteReader) -> (r: Result<NodeBox, OutOfBounds>)
    ensures
        final(reader).bytes() == old(reader).bytes(),
        match r {
            Ok(nodebox) => aabb_lists_in(old(reader).bytes(), old(reader).at(), 15) is Some && ({
                let (lists, end) = aabb_lists_in(old(reader).bytes(), old(reader).at(), 15)->0;
                &&& final(reader).at() == end
                &&& nodebox@ == (BoxView {
                    fixed: lists[0],
                    connected: ConnectedView {
                        connect_top: lists[1],
                        connect_bottom: lists[2],
                        connect_front: lists[3],
                        connect_left: lists[4],
                        connect_back: lists[5],
                        connect_right: lists[6],
                        disconnected_top: lists[7],
                        disconnected_bottom: lists[8],
                        disconnected_front: lists[9],
                        disconnected_left: lists[10],
                        disconnected_back: lists[11],
                        disconnected_right: lists[12],
                        disconnected: lists[13],
                        disconnected_sides: lists[14],
                    },
                    ..blank_box(NodeBoxType::Connected)
                })
            }),
            Err(_) => aabb_lists_in(old(reader).bytes(), old(reader).at(), 15) is None,
        },
{
    let ghost b = reader.bytes();
    let ghost at = reader.at();
    let mut lists: Vec<Vec<Aabb>> = Vec::new();
    let mut i: u8 = 0;
    assert(lists@.map_values(|l: Vec<Aabb>| l@) =~= Seq::<Seq<Aabb>>::empty());
    while i < 15
        invariant
            i <= 15,
            reader.bytes() == b,
            b == old(reader).bytes(),
            at == old(reader).at(),
            lists@.len() == i,
            aabb_lists_in(b, at, i as nat) == Some(
                (lists@.map_values(|l: Vec<Aabb>| l@), reader.at()),
            ),
        decreases 15 - i,
    {
        let ghost before = lists@.map_values(|l: Vec<Aabb>| l@);
        match read_aabb_vec(reader) {
            Ok(list) => {
                lists.push(list);
                assert(lists@.map_values(|l: Vec<Aabb>| l@) =~= before.push(list@));
            },
            Err(e) => {
                proof {
                    lists_stay_broken(b, at, (i + 1) as nat, 15);
                }
                return Err(e);
            },
        }
        i = i + 1;
    }
    let ghost all = lists@;
    let mut nodebox = new_box(NodeBoxType::Connected);
    nodebox.connected.disconnected_sides = lists.pop().unwrap();
    nodebox.connected.disconnected = lists.pop().unwrap();
    nodebox.connected.disconnected_right = lists.pop().unwrap();
    nodebox.connected.disconnected_back = lists.pop().unwrap();
    nodebox.connected.disconnected_left = lists.pop().unwrap();
    nodebox.connected.disconnected_front = lists.pop().unwrap();
    nodebox.connected.disconnected_bottom = lists.pop().unwrap();
    nodebox.connected.disconnected_top = lists.pop().unwrap();
    nodebox.connected.connect_right = lists.pop().unwrap();
    nodebox.connected.connect_back = lists.pop().unwrap();
    nodebox.connected.connect_left = lists.pop().unwrap();
    nodebox.connected.connect_front = lists.pop().unwrap();
    nodebox.connected.connect_bottom = lists.pop().unwrap();
    nodebox.connected.connect_top = lists.pop().unwrap();
    nodebox.fixed = lists.pop().unwrap();
    Ok(nodebox)
}

proof fn lists_stay_broken(b: Seq<u8>, at: int, few: nat, many: nat)
    requires
        few <= many,
        aabb_lists_in(b, at, few) is None,
    ensures
        aabb_lists_in(b, at, many) is None,
    decreases many,
{
    if few < many {
        lists_stay_broken(b, at, few, (many - 1) as nat);
    }
}

fn read_nodebox(reader: &mut ByteReader) -> (r: Result<NodeBox, DefFault>)
    ensures
        final(reader).bytes() == old(reader).bytes(),
        match r {
            Ok(n) => box_in(old(reader).bytes(), old(reader).at()) == Ok::<
                (BoxView, int),
                DefFault,
            >((n@, final(reader).at())),
            Err(e) => box_in(old(reader).bytes(), old(reader).at()) == Err::<
                (BoxView, int),
                DefFault,
            >(e),
        },
{
    let version: u8 = match reader.read_u8() {
        Ok(v) => v,
        Err(e) => return Err(out_of_bounds(e)),
    };
    if version < 6 {
        return Err(DefFault::BoxVersion(version));
    }
    let kind: u8 = match reader.read_u8() {
        Ok(v) => v,
        Err(e) => return Err(out_of_bounds(e)),
    };
    match kind {
        1 | 3 => {
            let mut nodebox = new_box(
                if kind == 1 {
                    NodeBoxType::Fixed
                } else {
                    NodeBoxType::Leveled
                },
            );
            match read_aabb_vec(reader) {
                Ok(list) => {
                    nodebox.fixed = list;
                    Ok(nodebox)
                },
                Err(e) => Err(out_of_bounds(e)),
            }
        },
        2 => {
            let mut nodebox = new_box(NodeBoxType::WallMounted);
            match read_aabb(reader) {
                Ok(a) => {
                    nodebox.wall_top = a;
                },
                Err(e) => return Err(out_of_bounds(e)),
            }
            match read_aabb(reader) {
                Ok(a) => {
                    nodebox.wall_bottom = a;
                },
                Err(e) => return Err(out_of_bounds(e)),
            }
            match read_aabb(reader) {
                Ok(a) => {
                    nodebox.wall_side = a;
                },
                Err(e) => return Err(out_of_bounds(e)),
            }
            Ok(nodebox)
        },
        4 => match read_connected(reader) {
            Ok(nodebox) => Ok(nodebox),
            Err(e) => Err(out_of_bounds(e)),
        },
        _ => Ok(new_box(NodeBoxType::Regular)),
    }
}

/// `count` groups with their ratings.
pub open spec fn groups_in(b: Seq<u8>, at: int, count: nat) -> Option<
    (Seq<(Seq<char>, i16)>, int),
>
    decreases count,
{
    if count == 0 {
        Some((seq![], at))
    } else {
        match groups_in(b, at, (count - 1) as nat) {
            None => None,
            Some((before, next)) => match text_in(b, next) {
                None => None,
                Some((name, rating)) => match u16_in(b, rating) {
                    None => None,
                    Some((v, end)) => Some((before.push((name, signed16(v))), end)),
                },
            },
        }
    }
}

/// The start of a definition: a version, the node's name, and its groups.
pub open spec fn head_in(b: Seq<u8>, at: int) -> Result<
    ((Seq<char>, Seq<(Seq<char>, i16)>), int),
    DefFault,
> {
    match u8_in(b, at) {
        None => Err(DefFault::OutOfBounds),
        Some((version, start)) => if version < 13 {
            Err(DefFault::FeaturesVersion(version))
        } else {
            match text_in(b, start) {
                None => Err(DefFault::OutOfBounds),
                Some((name, counted)) => match u16_in(b, counted) {
                    None => Err(DefFault::OutOfBounds),
                    Some((count, listed)) => match groups_in(b, listed, count as nat) {
                        None => Err(DefFault::OutOfBounds),
                        Some((groups, end)) => Ok(((name, groups), end)),
                    },
                },
            }
        },
    }
}

proof fn groups_stay_broken(b: Seq<u8>, at: int, few: nat, many: nat)
    requires
        few <= many,
        groups_in(b, at, few) is None,
    ensures
        groups_in(b, at, many) is None,
    decreases many,
{
    if few < many {
        groups_stay_broken(b, at, few, (many - 1) as nat);
    }
}

fn read_groups(reader: &mut ByteReader, count: u16) -> (r: Result<Vec<(String, i16)>, OutOfBounds>)
    ensures
        final(reader).bytes() == old(reader).bytes(),
        match r {
            Ok(groups) => groups_in(old(reader).bytes(), old(reader).at(), count as nat) == Some(
                (group_views(groups@), final(reader).at()),
            ),
            Err(_) => groups_in(old(reader).bytes(), old(reader).at(), count as nat) is None,
        },
{
    let ghost b = reader.bytes();
    let ghost at = reader.at();
    let mut groups: Vec<(String, i16)> = Vec::new();
    let mut i: u16 = 0;
    assert(group_views(groups@) =~= seq![]);
    while i < count
        invariant
            i <= count,
            reader.bytes() == b,
            b == old(reader).bytes(),
            at == old(reader).at(),
            groups_in(b, at, i as nat) == Some((group_views(groups@), reader.at())),
        decreases count - i,
    {
        let ghost before = group_views(groups@);
        let name = match reader.read_string16() {
            Ok(name) => name,
            Err(e) => {
                proof {
                    groups_stay_broken(b, at, (i + 1) as nat, count as nat);
                }
                return Err(e);
            },
        };
        let rating: i16 = match reader.read_s16() {
            Ok(v) => v,
            Err(e) => {
                proof {
                    groups_stay_broken(b, at, (i + 1) as nat, count as nat);
                }
                return Err(e);
            },
        };
        groups.push((name, rating));
        assert(group_views(groups@) =~= before.push((name@, rating)));
        i = i + 1;
    }
    Ok(groups)
}

fn read_head(reader: &mut ByteReader) -> (r: Result<(String, Vec<(String, i16)>), DefFault>)
    ensures
        final(reader).bytes() == old(reader).bytes(),
        match r {
            Ok((name, groups)) => head_in(old(reader).bytes(), old(reader).at()) == Ok::<
                ((Seq<char>, Seq<(Seq<char>, i16)>), int),
                DefFault,
            >(((name@, group_views(groups@)), final(reader).at())),
            Err(e) => head_in(old(reader).bytes(), old(reader).at()) == Err::<
                ((Seq<char>, Seq<(Seq<char>, i16)>), int),
                DefFault,
            >(e),
        },
{
    let version: u8 = match reader.read_u8() {
        Ok(v) => v,
        Err(e) => return Err(out_of_bounds(e)),
    };
    if version < 13 {
        return Err(DefFault::FeaturesVersion(version));
    }
    let name = match reader.read_string16() {
        Ok(name) => name,
        Err(e) => return Err(out_of_bounds(e)),
    };
    let count: u16 = match reader.read_u16() {
        Ok(v) => v,
        Err(e) => return Err(out_of_bounds(e)),
    };
    match read_groups(reader, count) {
        Ok(groups) => Ok((name, groups)),
        Err(e) => Err(out_of_bounds(e)),
    }
}

/// How a node is drawn: the second parameter's type and the draw type, before the
/// mesh and the visual scale.
pub open spec fn kind_in(b: Seq<u8>, at: int) -> Option<((ParamType2, NodeDrawType), int)> {
    if at + 3 > b.len() {
        None
    } else {
        match bytes_in(b, at + 3) {
            None => None,
            Some((_, scale)) => if scale + 4 > b.len() {
                None
            } else {
                Some(((param_type_2_of(b[at + 1]), drawtype_of(b[at + 2])), scale + 4))
            },
        }
    }
}

fn read_kind(reader: &mut ByteReader) -> (r: Result<(ParamType2, NodeDrawType), OutOfBounds>)
    ensures
        final(reader).bytes() == old(reader).bytes(),
        match r {
            Ok(kind) => kind_in(old(reader).bytes(), old(reader).at()) == Some(
                (kind, final(reader).at()),
            ),
            Err(_) => kind_in(old(reader).bytes(), old(reader).at()) is None,
        },
{
    let _param_type: u8 = reader.read_u8()?;
    let param_type_2 = to_param_type_2(reader.read_u8()?);
    let drawtype = to_drawtype(reader.read_u8()?);
    let _mesh: Vec<u8> = reader.read_bytes16()?;
    let _visual_scale: u32 = reader.read_f32()?;
    Ok((param_type_2, drawtype))
}

/// Where the tiles end: six tiles, six overlays, and a counted number of others.
pub open spec fn all_tiles_end(b: Seq<u8>, at: int) -> Result<int, DefFault> {
    match u8_in(b, at) {
        None => Err(DefFault::OutOfBounds),
        Some((count, start)) => if count != 6 {
            Err(DefFault::TileCount(count))
        } else {
            match tiles_end(b, start, 12) {
                Err(e) => Err(e),
                Ok(counted) => match u8_in(b, counted) {
                    None => Err(DefFault::OutOfBounds),
                    Some((special, listed)) => tiles_end(b, listed, special as nat),
                },
            }
        },
    }
}

fn skip_all_tiles(reader: &mut ByteReader) -> (r: Result<(), DefFault>)
    ensures
        final(reader).bytes() == old(reader).bytes(),
        match all_tiles_end(old(reader).bytes(), old(reader).at()) {
            Ok(end) => r is Ok && final(reader).at() == end,
            Err(e) => r == Err::<(), DefFault>(e),
        },
{
    let count: u8 = match reader.read_u8() {
        Ok(v) => v,
        Err(e) => return Err(out_of_bounds(e)),
    };
    if count != 6 {
        return Err(DefFault::TileCount(count));
    }
    skip_tiledefs(reader, 12)?;
    let special: u8 = match reader.read_u8() {
        Ok(v) => v,
        Err(e) => return Err(out_of_bounds(e)),
    };
    skip_tiledefs(reader, special)
}

/// What a node connects to: the sides and the ids, behind alpha, colour, palette
/// and waving.
pub open spec fn connections_in(b: Seq<u8>, at: int) -> Option<((u8, Seq<u16>), int)> {
    if at + 4 > b.len() {
        None
    } else {
        match bytes_in(b, at + 4) {
            None => None,
            Some((_, waving)) => if waving + 2 > b.len() {
                None
            } else {
                match u16_in(b, waving + 2) {
                    None => None,
                    Some((count, listed)) => if listed + 2 * count > b.len() {
                        None
                    } else {
                        Some(
                            ((b[waving + 1], units_in(b, listed, count as int)), listed + 2 * count),
                        )
                    },
                }
            },
        }
    }
}

fn read_connections(reader: &mut ByteReader) -> (r: Result<(u8, Vec<u16>), OutOfBounds>)
    ensures
        final(reader).bytes() == old(reader).bytes(),
        match r {
            Ok((sides, ids)) => connections_in(old(reader).bytes(), old(reader).at()) == Some(
                ((sides, ids@), final(reader).at()),
            ),
            Err(_) => connections_in(old(reader).bytes(), old(reader).at()) is None,
        },
{
    reader.skip(4)?;
    let _palette: Vec<u8> = reader.read_bytes16()?;
    let ghost waving = reader.at();
    let _waving: u8 = reader.read_u8()?;
    let sides: u8 = reader.read_u8()?;
    let count: u16 = reader.read_u16()?;
    let ghost b = reader.bytes();
    let ghost listed = reader.at();
    let mut ids: Vec<u16> = Vec::new();
    let mut i: u16 = 0;
    while i < count
        invariant
            i <= count,
            reader.bytes() == b,
            b == old(reader).bytes(),
            old(reader).at() + 4 <= b.len(),
            match bytes_in(b, old(reader).at() + 4) {
                Some((_, end)) => end == waving,
                None => false,
            },
            waving + 2 <= b.len(),
            u16_in(b, waving + 2) == Some((count, listed)),
            reader.at() == listed + 2 * i,
            reader.at() <= b.len(),
            ids@ =~= units_in(b, listed, i as int),
        decreases count - i,
    {
        ids.push(reader.read_u16()?);
        i = i + 1;
    }
    Ok((sides, ids))
}

fn read_argb8(reader: &mut ByteReader) -> (r: Result<Color, OutOfBounds>)
    ensures
        final(reader).bytes() == old(reader).bytes(),
        match r {
            Ok(c) => old(reader).at() + 4 <= old(reader).bytes().len() && c == (Color {
                a: old(reader).bytes()[old(reader).at()],
                r: old(reader).bytes()[old(reader).at() + 1],
                g: old(reader).bytes()[old(reader).at() + 2],
                b: old(reader).bytes()[old(reader).at() + 3],
            }) && final(reader).at() == old(reader).at() + 4,
            Err(_) => old(reader).at() + 4 > old(reader).bytes().len(),
        },
{
    let a: u8 = reader.read_u8()?;
    let r: u8 = reader.read_u8()?;
    let g: u8 = reader.read_u8()?;
    let b: u8 = reader.read_u8()?;
    Ok(Color { r, g, b, a })
}

/// How high a node is, and whether it can be walked on and climbed: a colour, the
/// level, four bytes on light and ground, six flags, and the damage.
pub open spec fn flags_in(b: Seq<u8>, at: int) -> Option<((u8, bool, bool), int)> {
    if at + 19 > b.len() {
        None
    } else {
        Some(((b[at + 4], b[at + 9] != 0, b[at + 12] != 0), at + 19))
    }
}

fn read_flags(reader: &mut ByteReader) -> (r: Result<(u8, bool, bool), OutOfBounds>)
    ensures
        final(reader).bytes() == old(reader).bytes(),
        match r {
            Ok(flags) => flags_in(old(reader).bytes(), old(reader).at()) == Some(
                (flags, final(reader).at()),
            ),
            Err(_) => flags_in(old(reader).bytes(), old(reader).at()) is None,
        },
{
    let _post_effect_color = read_argb8(reader)?;
    let leveled: u8 = reader.read_u8()?;
    reader.skip(4)?;
    let walkable = reader.read_u8()? != 0;
    let _pointable: u8 = reader.read_u8()?;
    let _diggable: u8 = reader.read_u8()?;
    let climbable = reader.read_u8()? != 0;
    let _buildable_to: u8 = reader.read_u8()?;
    let _rightclickable: u8 = reader.read_u8()?;
    let _damage_per_second: u32 = reader.read_u32()?;
    Ok((leveled, walkable, climbable))
}

/// What kind of liquid a node is, and its viscosity.
pub open spec fn liquid_in(b: Seq<u8>, at: int) -> Option<((LiquidType, u8), int)> {
    if at + 1 > b.len() {
        None
    } else {
        match bytes_in(b, at + 1) {
            None => None,
            Some((_, source)) => match bytes_in(b, source) {
                None => None,
                Some((_, viscosity)) => if viscosity + 5 > b.len() {
                    None
                } else {
                    Some(((liquid_type_of(b[at]), b[viscosity]), viscosity + 5))
                },
            },
        }
    }
}

fn read_liquid(reader: &mut ByteReader) -> (r: Result<(LiquidType, u8), OutOfBounds>)
    ensures
        final(reader).bytes() == old(reader).bytes(),
        match r {
            Ok(liquid) => liquid_in(old(reader).bytes(), old(reader).at()) == Some(
                (liquid, final(reader).at()),
            ),
            Err(_) => liquid_in(old(reader).bytes(), old(reader).at()) is None,
        },
{
    let kind: u8 = reader.read_u8()?;
    let liquid_type = match kind {
        1 => LiquidType::Source,
        2 => LiquidType::Flowing,
        _ => LiquidType::NotLiquid,
    };
    let _alternative_flowing: Vec<u8> = reader.read_bytes16()?;
    let _alternative_source: Vec<u8> = reader.read_bytes16()?;
    let viscosity: u8 = reader.read_u8()?;
    reader.skip(4)?;
    Ok((liquid_type, viscosity))
}

/// Where a sound ends: a name, a gain, a pitch and a fade.
pub open spec fn sound_end(b: Seq<u8>, at: int) -> Option<int> {
    match bytes_in(b, at) {
        None => None,
        Some((_, gain)) => if gain + 12 > b.len() {
            None
        } else {
            Some(gain + 12)
        },
    }
}

fn skip_sound(reader: &mut ByteReader) -> (r: Result<(), OutOfBounds>)
    ensures
        final(reader).bytes() == old(reader).bytes(),
        match sound_end(old(reader).bytes(), old(reader).at()) {
            Some(end) => r is Ok && final(reader).at() == end,
            None => r is Err,
        },
{
    let _name: Vec<u8> = reader.read_bytes16()?;
    let _gain: u32 = reader.read_f32()?;
    let _pitch: u32 = reader.read_f32()?;
    let _fade: u32 = reader.read_f32()?;
    Ok(())
}

/// Where three sounds end.
pub open spec fn sounds_end(b: Seq<u8>, at: int) -> Option<int> {
    match sound_end(b, at) {
        None => None,
        Some(second) => match sound_end(b, second) {
            None => None,
            Some(third) => sound_end(b, third),
        },
    }
}

/// The end of a definition: sounds, two bytes of history and a prediction, then as
/// far as they are there the highest level, and the resistance to movement with
/// whether the node moves players as a liquid does.
pub open spec fn tail_in(b: Seq<u8>, at: int) -> Option<(u8, Option<(u8, bool)>)> {
    match sounds_end(b, at) {
        None => None,
        Some(legacy) => if legacy + 2 > b.len() {
            None
        } else {
            match bytes_in(b, legacy + 2) {
                None => None,
                Some((_, level)) => if level >= b.len() {
                    Some((0, None))
                } else if level + 1 >= b.len() {
                    Some((b[level], None))
                } else if level + 4 > b.len() {
                    None
                } else {
                    Some((b[level], Some((b[level + 2], b[level + 3] != 0))))
                },
            }
        },
    }
}

fn read_tail(reader: &mut ByteReader) -> (r: Result<(u8, Option<(u8, bool)>), OutOfBounds>)
    ensures
        final(reader).bytes() == old(reader).bytes(),
        match r {
            Ok(tail) => tail_in(old(reader).bytes(), old(reader).at()) == Some(tail),
            Err(_) => tail_in(old(reader).bytes(), old(reader).at()) is None,
        },
{
    skip_sound(reader)?;
    skip_sound(reader)?;
    skip_sound(reader)?;
    reader.skip(2)?;
    let _node_dig_prediction: Vec<u8> = reader.read_bytes16()?;
    let leveled_max: u8 = if reader.remaining() > 0 { reader.read_u8()? } else { 0 };
    if reader.remaining() > 0 {
        let _alpha: u8 = reader.read_u8()?;
        let move_resistance: u8 = reader.read_u8()?;
        let liquid_move_physics = reader.read_u8()? != 0;
        Ok((leveled_max, Some((move_resistance, liquid_move_physics))))
    } else {
        Ok((leveled_max, None))
    }
}

/// The shapes of a node: as it looks, as it is selected, and as it collides.
pub open spec fn boxes_in(b: Seq<u8>, at: int) -> Result<((BoxView, BoxView, BoxView), int), DefFault> {
    match box_in(b, at) {
        Err(e) => Err(e),
        Ok((node, second)) => match box_in(b, second) {
            Err(e) => Err(e),
            Ok((selection, third)) => match box_in(b, third) {
                Err(e) => Err(e),
                Ok((collision, end)) => Ok(((node, selection, collision), end)),
            },
        },
    }
}

/// The name and the features in a definition.
pub open spec fn features_in(b: Seq<u8>, at: int) -> Result<(Seq<char>, FeaturesView), DefFault> {
    match head_in(b, at) {
        Err(e) => Err(e),
        Ok(((name, groups), p1)) => match kind_in(b, p1) {
            None => Err(DefFault::OutOfBounds),
            Some(((param_type_2, drawtype), p2)) => match all_tiles_end(b, p2) {
                Err(e) => Err(e),
                Ok(p3) => match connections_in(b, p3) {
                    None => Err(DefFault::OutOfBounds),
                    Some(((connect_sides, connects_to_ids), p4)) => match flags_in(b, p4) {
                        None => Err(DefFault::OutOfBounds),
                        Some(((leveled, walkable, climbable), p5)) => match liquid_in(b, p5) {
                            None => Err(DefFault::OutOfBounds),
                            Some(((liquid_type, viscosity), p6)) => match boxes_in(b, p6) {
                                Err(e) => Err(e),
                                Ok(((node_box, selection_box, collision_box), p7)) => {
                                    match tail_in(b, p7) {
                                        None => Err(DefFault::OutOfBounds),
                                        Some((leveled_max, movement)) => Ok(
                                            (
                                                name,
                                                FeaturesView {
                                                    walkable,
                                                    climbable,
                                                    liquid_move_physics: liquid_type
                                                        != LiquidType::NotLiquid || (match movement {
                                                        Some((_, liquid)) => liquid,
                                                        None => false,
                                                    }),
                                                    move_resistance: match movement {
                                                        Some((resistance, _)) => resistance,
                                                        None => viscosity,
                                                    },
                                                    node_box,
                                                    collision_box,
                                                    selection_box,
                                                    param_type_2,
                                                    drawtype,
                                                    leveled,
                                                    leveled_max,
                                                    liquid_type,
                                                    liquid_alternative_flowing_id: 0,
                                                    liquid_alternative_source_id: 0,
                                                    connect_sides,
                                                    connects_to_ids,
                                                    groups,
                                                },
                                            ),
                                        ),
                                    }
                                },
                            },
                        },
                    },
                },
            },
        },
    }
}

pub open spec fn features_result(r: Result<(String, ContentFeatures), DefFault>) -> Result<
    (Seq<char>, FeaturesView),
    DefFault,
> {
    match r {
        Ok((name, features)) => Ok((name@, features@)),
        Err(e) => Err(e),
    }
}

/// Reads one definition.
pub fn parse_content_features(data: &[u8]) -> (r: Result<(String, ContentFeatures), DefFault>)
    ensures
        features_result(r) == features_in(data@, 0),
{
    let mut reader = ByteReader::new(data);
    let (name, groups) = read_head(&mut reader)?;
    let (param_type_2, drawtype) = match read_kind(&mut reader) {
        Ok(v) => v,
        Err(e) => return Err(out_of_bounds(e)),
    };
    skip_all_tiles(&mut reader)?;
    let (connect_sides, connects_to_ids) = match read_connections(&mut reader) {
        Ok(v) => v,
        Err(e) => return Err(out_of_bounds(e)),
    };
    let (leveled, walkable, climbable) = match read_flags(&mut reader) {
        Ok(v) => v,
        Err(e) => return Err(out_of_bounds(e)),
    };
    let (liquid_type, viscosity) = match read_liquid(&mut reader) {
        Ok(v) => v,
        Err(e) => return Err(out_of_bounds(e)),
    };
    let node_box = read_nodebox(&mut reader)?;
    let selection_box = read_nodebox(&mut reader)?;
    let collision_box = read_nodebox(&mut reader)?;
    let (leveled_max, movement) = match read_tail(&mut reader) {
        Ok(v) => v,
        Err(e) => return Err(out_of_bounds(e)),
    };
    let liquid = liquid_type != LiquidType::NotLiquid;
    let (move_resistance, liquid_move_physics): (u8, bool) = match movement {
        Some((resistance, moves)) => (resistance, liquid || moves),
        None => (viscosity, liquid),
    };
    Ok(
        (
            name,
            ContentFeatures {
                walkable,
                climbable,
                liquid_move_physics,
                move_resistance,
                node_box,
                collision_box,
                selection_box,
                param_type_2,
                drawtype,
                leveled,
                leveled_max,
                liquid_type,
                liquid_alternative_flowing_id: 0,
                liquid_alternative_source_id: 0,
                connect_sides,
                connects_to_ids,
                groups,
            },
        ),
    )
}

/// The definitions of all kinds of nodes.
#[derive(Clone, Debug)]
pub struct NodeDefManager {
    pub features: Vec<ContentFeatures>,
    pub name_to_id: Vec<(String, u16)>,
}

/// The value of a [`NodeDefManager`].
pub ghost struct ManagerView {
    /// The features of each id.
    pub features: Seq<FeaturesView>,
    /// Names with their ids, in the order of their definition.
    pub names: Seq<(Seq<char>, u16)>,
}

pub open spec fn feature_views(features: Seq<ContentFeatures>) -> Seq<FeaturesView> {
    features.map_values(|f: ContentFeatures| f@)
}

pub open spec fn name_views(names: Seq<(String, u16)>) -> Seq<(Seq<char>, u16)> {
    names.map_values(|n: (String, u16)| (n.0@, n.1))
}

impl View for NodeDefManager {
    type V = ManagerView;

    open spec fn view(&self) -> ManagerView {
        ManagerView {
            features: feature_views(self.features@),
            names: name_views(self.name_to_id@),
        }
    }
}

impl Default for NodeDefManager {
    fn default() -> (m: Self)
        ensures
            m@ == (ManagerView { features: seq![], names: seq![] }),
    {
        let m = NodeDefManager { features: Vec::new(), name_to_id: Vec::new() };
        assert(m@.features =~= seq![]);
        assert(m@.names =~= seq![]);
        m
    }
}

/// The last name that was given to an id.
pub open spec fn last_name(names: Seq<(Seq<char>, u16)>, id: u16) -> Option<Seq<char>>
    decreases names.len(),
{
    if names.len() == 0 {
        None
    } else if names.last().1 == id {
        Some(names.last().0)
    } else {
        last_name(names.drop_last(), id)
    }
}

/// The first name that was given to an id.
pub open spec fn first_name(names: Seq<(Seq<char>, u16)>, id: u16) -> Option<Seq<char>>
    decreases names.len(),
{
    if names.len() == 0 {
        None
    } else if names[0].1 == id {
        Some(names[0].0)
    } else {
        first_name(names.drop_first(), id)
    }
}

/// The last id that was given to a name.
pub open spec fn last_id_of(names: Seq<(Seq<char>, u16)>, name: Seq<char>) -> Option<u16>
    decreases names.len(),
{
    if names.len() == 0 {
        None
    } else if names.last().0 == name {
        Some(names.last().1)
    } else {
        last_id_of(names.drop_last(), name)
    }
}

/// A liquid whose other forms are not known has air for them.
pub open spec fn crossrefs_resolved(f: FeaturesView, air: Option<u16>) -> FeaturesView {
    if f.liquid_type == LiquidType::NotLiquid || air is None {
        f
    } else {
        FeaturesView {
            liquid_alternative_flowing_id: if f.liquid_alternative_flowing_id == 0 {
                air->0
            } else {
                f.liquid_alternative_flowing_id
            },
            liquid_alternative_source_id: if f.liquid_alternative_source_id == 0 {
                air->0
            } else {
                f.liquid_alternative_source_id
            },
            ..f
        }
    }
}

/// The definitions with one more: ids in between that were not defined get the
/// features of nothing in particular.
pub open spec fn with_definition(m: ManagerView, id: u16, name: Seq<char>, f: FeaturesView) -> ManagerView {
    ManagerView {
        features: if id < m.features.len() {
            m.features.update(id as int, f)
        } else {
            (m.features + Seq::new((id - m.features.len()) as nat, |i: int| undefined_features())).push(f)
        },
        names: m.names.push((name, id)),
    }
}

impl NodeDefManager {
    /// The features of an id.
    pub fn get(&self, id: u16) -> (f: Option<&ContentFeatures>)
        ensures
            match f {
                Some(f) => id < self@.features.len() && f@ == self@.features[id as int],
                None => id >= self@.features.len(),
            },
    {
        if (id as usize) < self.features.len() {
            Some(&self.features[id as usize])
        } else {
            None
        }
    }

    /// The name of an id: the last one that it was given, unless that is empty.
    pub fn name(&self, id: u16) -> (name: Option<&str>)
        ensures
            match name {
                Some(n) => last_name(self@.names, id) == Some(n@) && n@.len() > 0,
                None => last_name(self@.names, id) is None || last_name(self@.names, id)->0.len()
                    == 0,
            },
    {
        let ghost names = self@.names;
        let mut i: usize = self.name_to_id.len();
        assert(names.take(i as int) =~= names);
        while i > 0
            invariant
                i <= self.name_to_id.len(),
                names == name_views(self.name_to_id@),
                names == self@.names,
                last_name(names, id) == last_name(names.take(i as int), id),
            decreases i,
        {
            assert(names.take(i as int).drop_last() =~= names.take(i - 1));
            assert(names.take(i as int).last() == names[i - 1]);
            let entry: &(String, u16) = &self.name_to_id[i - 1];
            if entry.1 == id {
                return if entry.0.as_str().is_empty() {
                    None
                } else {
                    Some(entry.0.as_str())
                };
            }
            i = i - 1;
        }
        None
    }

    /// The id of a name: the last one that it was given.
    fn id_of(&self, name: &str) -> (id: Option<u16>)
        ensures
            id == last_id_of(self@.names, name@),
    {
        let wanted = name.to_owned();
        let ghost names = self@.names;
        let mut i: usize = self.name_to_id.len();
        assert(names.take(i as int) =~= names);
        while i > 0
            invariant
                i <= self.name_to_id.len(),
                wanted@ == name@,
                names == name_views(self.name_to_id@),
                last_id_of(names, name@) == last_id_of(names.take(i as int), name@),
            decreases i,
        {
            assert(names.take(i as int).drop_last() =~= names.take(i - 1));
            assert(names.take(i as int).last() == names[i - 1]);
            let entry: &(String, u16) = &self.name_to_id[i - 1];
            if entry.0 == wanted {
                return Some(entry.1);
            }
            i = i - 1;
        }
        None
    }

    /// Gives liquids whose other forms are not known air for them.
    pub fn resolve_crossrefs(&mut self)
        ensures
            final(self)@.names == old(self)@.names,
            final(self)@.features == old(self)@.features.map_values(
                |f: FeaturesView| crossrefs_resolved(f, last_id_of(old(self)@.names, "air"@)),
            ),
    {
        let air = self.id_of("air");
        let ghost before = self@.features;
        let mut i: usize = 0;
        while i < self.features.len()
            invariant
                i <= self.features.len(),
                self.name_to_id == old(self).name_to_id,
                before == old(self)@.features,
                air == last_id_of(old(self)@.names, "air"@),
                self.features@.len() == before.len(),
                forall|k: int|
                    0 <= k < i ==> (#[trigger] self.features@[k])@ == crossrefs_resolved(
                        before[k],
                        air,
                    ),
                forall|k: int| i <= k < before.len() ==> (#[trigger] self.features@[k])@ == before[k],
            decreases self.features.len() - i,
        {
            if let Some(id) = air {
                let liquid = self.features[i].liquid_type != LiquidType::NotLiquid;
                if liquid {
                    if self.features[i].liquid_alternative_flowing_id == 0 {
                        self.features[i].liquid_alternative_flowing_id = id;
                    }
                    if self.features[i].liquid_alternative_source_id == 0 {
                        self.features[i].liquid_alternative_source_id = id;
                    }
                }
            }
            i = i + 1;
        }
        assert(self@.features =~= before.map_values(
            |f: FeaturesView| crossrefs_resolved(f, last_id_of(old(self)@.names, "air"@)),
        ));
    }

    /// Takes a definition.
    fn define(&mut self, id: u16, name: String, features: ContentFeatures)
        ensures
            final(self)@ == with_definition(old(self)@, id, name@, features@),
    {
        let ghost before = self@.features;
        if (id as usize) < self.features.len() {
            self.features[id as usize] = features;
            assert(self@.features =~= before.update(id as int, features@));
        } else {
            while self.features.len() < id as usize
                invariant
                    before.len() <= self.features.len() <= id,
                    before == old(self)@.features,
                    self.name_to_id == old(self).name_to_id,
                    feature_views(self.features@) =~= before + Seq::new(
                        (self.features.len() - before.len()) as nat,
                        |i: int| undefined_features(),
                    ),
                decreases id - self.features.len(),
            {
                let ghost shorter = feature_views(self.features@);
                self.features.push(ContentFeatures::default());
                assert(feature_views(self.features@) =~= shorter.push(undefined_features()));
            }
            let ghost padded = self@.features;
            self.features.push(features);
            assert(self@.features =~= padded.push(features@));
        }
        let ghost names = self@.names;
        self.name_to_id.push((name, id));
        assert(self@.names =~= names.push((name@, id)));
    }
}

/// Why definitions were not taken.
#[derive(Debug)]
pub enum NodeDefError {
    /// They could not be decompressed.
    Decompress(String),
    /// They could not be read.
    Malformed(DefFault),
}

/// The value of a [`NodeDefError`].
pub ghost enum NodeDefErrorView {
    Decompress(Seq<char>),
    Malformed(DefFault),
}

impl View for NodeDefError {
    type V = NodeDefErrorView;

    open spec fn view(&self) -> NodeDefErrorView {
        match *self {
            NodeDefError::Decompress(e) => NodeDefErrorView::Decompress(e@),
            NodeDefError::Malformed(f) => NodeDefErrorView::Malformed(f),
        }
    }
}

/// `count` definitions, each an id and a definition behind its length, taken on top
/// of those that are there.
pub open spec fn definitions_in(b: Seq<u8>, at: int, count: nat, m: ManagerView) -> Result<
    ManagerView,
    DefFault,
>
    decreases count,
{
    if count == 0 {
        Ok(m)
    } else {
        match u16_in(b, at) {
            None => Err(DefFault::OutOfBounds),
            Some((id, start)) => match bytes_in(b, start) {
                None => Err(DefFault::OutOfBounds),
                Some((wrapped, next)) => match features_in(wrapped, 0) {
                    Err(e) => Err(e),
                    Ok((name, f)) => definitions_in(
                        b,
                        next,
                        (count - 1) as nat,
                        with_definition(m, id, name, f),
                    ),
                },
            },
        }
    }
}

/// The definitions in decompressed data: a version, a count, and the definitions
/// behind their length.
pub open spec fn nodedef_of(b: Seq<u8>) -> Result<ManagerView, DefFault> {
    match u8_in(b, 0) {
        None => Err(DefFault::OutOfBounds),
        Some((version, _)) => if version < 1 {
            Err(DefFault::ManagerVersion(version))
        } else {
            match u16_in(b, 1) {
                None => Err(DefFault::OutOfBounds),
                Some((count, start)) => match long_bytes_in(b, start) {
                    None => Err(DefFault::OutOfBounds),
                    Some((content, _)) => definitions_in(
                        content,
                        0,
                        count as nat,
                        ManagerView { features: seq![], names: seq![] },
                    ),
                },
            }
        },
    }
}

/// Reads decompressed definitions.
pub fn parse_nodedef(data: &[u8]) -> (r: Result<NodeDefManager, DefFault>)
    ensures
        match r {
            Ok(m) => nodedef_of(data@) == Ok::<ManagerView, DefFault>(m@),
            Err(e) => nodedef_of(data@) == Err::<ManagerView, DefFault>(e),
        },
{
    let mut reader = ByteReader::new(data);
    let version: u8 = match reader.read_u8() {
        Ok(v) => v,
        Err(e) => return Err(out_of_bounds(e)),
    };
    if version < 1 {
        return Err(DefFault::ManagerVersion(version));
    }
    let count: u16 = match reader.read_u16() {
        Ok(v) => v,
        Err(e) => return Err(out_of_bounds(e)),
    };
    let content: Vec<u8> = match reader.read_string32() {
        Ok(v) => v,
        Err(e) => return Err(out_of_bounds(e)),
    };
    let mut inner = ByteReader::new(content.as_slice());
    let mut manager = NodeDefManager::default();
    let ghost whole = definitions_in(content@, 0, count as nat, manager@);
    let mut i: u16 = 0;
    while i < count
        invariant
            i <= count,
            inner.bytes() == content@,
            nodedef_of(data@) == whole,
            whole == definitions_in(content@, inner.at(), (count - i) as nat, manager@),
        decreases count - i,
    {
        let id: u16 = match inner.read_u16() {
            Ok(v) => v,
            Err(e) => return Err(out_of_bounds(e)),
        };
        let wrapped: Vec<u8> = match inner.read_bytes16() {
            Ok(v) => v,
            Err(e) => return Err(out_of_bounds(e)),
        };
        let (name, features) = parse_content_features(wrapped.as_slice())?;
        manager.define(id, name, features);
        i = i + 1;
    }
    Ok(manager)
}

/// Decompresses and reads definitions. The protocol version makes no difference.
pub fn parse_nodedef_zstd(data: &[u8], _protocol_version: u16) -> (r: Result<
    NodeDefManager,
    NodeDefError,
>)
    ensures
        match zstd_content(data@) {
            Ok(content) => match nodedef_of(content) {
                Ok(m) => r is Ok && r->Ok_0@ == m,
                Err(fault) => r is Err && r->Err_0@ == NodeDefErrorView::Malformed(fault),
            },
            Err(e) => r is Err && r->Err_0@ == NodeDefErrorView::Decompress(e),
        },
{
    match decode_all(data) {
        Ok(content) => match parse_nodedef(content.as_slice()) {
            Ok(m) => Ok(m),
            Err(fault) => Err(NodeDefError::Malformed(fault)),
        },
        Err(e) => Err(NodeDefError::Decompress(e)),
    }
}

/// The corners of a box, coordinate by coordinate.
pub open spec fn corner(b: Aabb, j: int) -> u32 {
    if j == 0 {
        b.min.x
    } else if j == 1 {
        b.min.y
    } else if j == 2 {
        b.min.z
    } else if j == 3 {
        b.max.x
    } else if j == 4 {
        b.max.y
    } else {
        b.max.z
    }
}

/// Boxes as they are written: each its lower and its upper corner.
pub open spec fn boxes_be(list: Seq<Aabb>) -> Seq<u8> {
    Seq::new(24 * list.len(), |i: int| be32(corner(list[i / 24], (i % 24) / 4))[i % 4])
}

#[verifier::rlimit(50)]
proof fn corner_in_a_row(before: Seq<u8>, list: Seq<Aabb>, after: Seq<u8>, k: int, j: int)
    requires
        0 <= k < list.len(),
        0 <= j < 6,
    ensures
        u32_at(before + boxes_be(list) + after, before.len() + 24 * k + 4 * j) == corner(list[k], j),
{
    let p = before + boxes_be(list) + after;
    let at = before.len() + 24 * k + 4 * j;
    let i = 24 * k + 4 * j;
    let w = be32(corner(list[k], j));
    assert(i / 24 == k && (i % 24) / 4 == j && i % 4 == 0);
    assert((i + 1) / 24 == k && ((i + 1) % 24) / 4 == j && (i + 1) % 4 == 1);
    assert((i + 2) / 24 == k && ((i + 2) % 24) / 4 == j && (i + 2) % 4 == 2);
    assert((i + 3) / 24 == k && ((i + 3) % 24) / 4 == j && (i + 3) % 4 == 3);
    assert(p[at] == boxes_be(list)[i] && boxes_be(list)[i] == w[0]);
    assert(p[at + 1] == boxes_be(list)[i + 1] && boxes_be(list)[i + 1] == w[1]);
    assert(p[at + 2] == boxes_be(list)[i + 2] && boxes_be(list)[i + 2] == w[2]);
    assert(p[at + 3] == boxes_be(list)[i + 3] && boxes_be(list)[i + 3] == w[3]);
}

proof fn box_in_a_row(before: Seq<u8>, list: Seq<Aabb>, after: Seq<u8>, k: int)
    requires
        0 <= k < list.len(),
    ensures
        aabb_at(before + boxes_be(list) + after, before.len() + 24 * k) == list[k],
{
    corner_in_a_row(before, list, after, k, 0);
    corner_in_a_row(before, list, after, k, 1);
    corner_in_a_row(before, list, after, k, 2);
    corner_in_a_row(before, list, after, k, 3);
    corner_in_a_row(before, list, after, k, 4);
    corner_in_a_row(before, list, after, k, 5);
}

/// A list of boxes is read as it was written, wherever it stands: all of them, in order.
#[verifier::rlimit(50)]
pub proof fn boxes_are_read_as_written(before: Seq<u8>, list: Seq<Aabb>, after: Seq<u8>)
    requires
        list.len() <= 65535,
    ensures
        aabbs_in(
            before + be16(list.len() as u16) + boxes_be(list) + after,
            before.len() as int,
        ) == Some((list, before.len() as int + 2 + 24 * list.len())),
{
    let n = list.len() as u16;
    let front = before + be16(n);
    let p = front + boxes_be(list) + after;
    regrouped(before, be16(n), boxes_be(list), after, seq![], seq![]);
    numbers_come_back(before, n, 0, boxes_be(list) + after);
    let start = before.len() as int + 2;
    assert(front.len() == start);
    assert forall|k: int| 0 <= k < list.len() implies aabb_at(p, start + 24 * k) == list[k] by {
        box_in_a_row(front, list, after, k);
    }
    match aabbs_in(p, before.len() as int) {
        Some((found, _)) => {
            assert(found =~= list);
        },
        None => {},
    }
}

/// Lists of boxes as they are written, one behind the other.
pub open spec fn lists_be(lists: Seq<Seq<Aabb>>) -> Seq<u8>
    decreases lists.len(),
{
    if lists.len() == 0 {
        seq![]
    } else {
        lists_be(lists.drop_last()) + be16(lists.last().len() as u16) + boxes_be(lists.last())
    }
}

#[verifier::rlimit(50)]
proof fn lists_come_back(before: Seq<u8>, lists: Seq<Seq<Aabb>>, after: Seq<u8>)
    requires
        forall|i: int| 0 <= i < lists.len() ==> (#[trigger] lists[i]).len() <= 65535,
    ensures
        aabb_lists_in(before + lists_be(lists) + after, before.len() as int, lists.len()) == Some(
            (lists, before.len() as int + lists_be(lists).len()),
        ),
    decreases lists.len(),
{
    if lists.len() == 0 {
        assert(lists =~= seq![]);
    } else {
        let fewer = lists.drop_last();
        let last = lists.last();
        assert(last == lists[lists.len() - 1]);
        let tail = be16(last.len() as u16) + boxes_be(last) + after;
        assert forall|i: int| 0 <= i < fewer.len() implies (#[trigger] fewer[i]).len() <= 65535 by {
            assert(fewer[i] == lists[i]);
        }
        lists_come_back(before, fewer, tail);
        boxes_are_read_as_written(before + lists_be(fewer), last, after);
        regrouped(
            before,
            lists_be(fewer),
            be16(last.len() as u16),
            boxes_be(last),
            after,
            seq![],
        );
        regrouped(before, lists_be(lists), after, seq![], seq![], seq![]);
        let p = before + lists_be(lists) + after;
        assert(p == before + lists_be(fewer) + be16(last.len() as u16) + boxes_be(last) + after) by {
            regrouped(
                before,
                lists_be(fewer),
                be16(last.len() as u16),
                boxes_be(last),
                seq![],
                seq![],
            );
        }
        assert(fewer.push(last) =~= lists);
    }
}

/// These bytes are the written form of a shape, wherever they stand.
pub open spec fn writes_shape(bytes: Seq<u8>, shape: BoxView) -> bool {
    forall|before: Seq<u8>, after: Seq<u8>|
        box_in(#[trigger] (before + bytes + after), before.len() as int) == Ok::<
            (BoxView, int),
            DefFault,
        >((shape, before.len() as int + bytes.len()))
}

/// Shapes are read as they were written: the whole node; fixed and leveled ones with all
/// their boxes; wall mounted ones with the box at the top, at the bottom and at the side;
/// connected ones with the boxes that are always there, those on each side where a
/// neighbour connects or does not, and those without neighbours.
pub proof fn shapes_are_read_as_written(
    version: u8,
    list: Seq<Aabb>,
    top: Aabb,
    bottom: Aabb,
    side: Aabb,
    lists: Seq<Seq<Aabb>>,
)
    requires
        version >= 6,
        list.len() <= 65535,
        lists.len() == 15,
        forall|i: int| 0 <= i < lists.len() ==> (#[trigger] lists[i]).len() <= 65535,
    ensures
        writes_shape(seq![version, 0u8], blank_box(NodeBoxType::Regular)),
        writes_shape(
            seq![version, 1u8] + be16(list.len() as u16) + boxes_be(list),
            (BoxView { fixed: list, ..blank_box(NodeBoxType::Fixed) }),
        ),
        writes_shape(
            seq![version, 3u8] + be16(list.len() as u16) + boxes_be(list),
            (BoxView { fixed: list, ..blank_box(NodeBoxType::Leveled) }),
        ),
        writes_shape(
            seq![version, 2u8] + boxes_be(seq![top, bottom, side]),
            (BoxView {
                wall_top: top,
                wall_bottom: bottom,
                wall_side: side,
                ..blank_box(NodeBoxType::WallMounted)
            }),
        ),
        writes_shape(
            seq![version, 4u8] + lists_be(lists),
            (BoxView {
                fixed: lists[0],
                connected: ConnectedView {
                    connect_top: lists[1],
                    connect_bottom: lists[2],
                    connect_front: lists[3],
                    connect_left: lists[4],
                    connect_back: lists[5],
                    connect_right: lists[6],
                    disconnected_top: lists[7],
                    disconnected_bottom: lists[8],
                    disconnected_front: lists[9],
                    disconnected_left: lists[10],
                    disconnected_back: lists[11],
                    disconnected_right: lists[12],
                    disconnected: lists[13],
                    disconnected_sides: lists[14],
                },
                ..blank_box(NodeBoxType::Connected)
            }),
        ),
{
    plain_shape_is_read(version);
    fixed_shape_is_read(version, 1, list);
    fixed_shape_is_read(version, 3, list);
    mounted_shape_is_read(version, top, bottom, side);
    connected_shape_is_read(version, lists);
}

#[verifier::rlimit(50)]
proof fn shape_head(before: Seq<u8>, version: u8, kind: u8, rest: Seq<u8>, after: Seq<u8>)
    ensures
        ({
            let p = before + (seq![version, kind] + rest) + after;
            let at = before.len() as int;
            &&& p == before + seq![version, kind] + rest + after
            &&& p[at] == version
            &&& p[at + 1] == kind
            &&& (before + seq![version, kind]).len() == at + 2
            &&& p.len() == at + 2 + rest.len() + after.len()
        }),
{
    regrouped(before, seq![version, kind], rest, after, seq![], seq![]);
    let p = before + seq![version, kind] + rest + after;
    assert(p[before.len() as int] == version);
    assert(p[before.len() as int + 1] == kind);
}

#[verifier::rlimit(50)]
proof fn plain_shape_is_read(version: u8)
    requires
        version >= 6,
    ensures
        writes_shape(seq![version, 0u8], blank_box(NodeBoxType::Regular)),
{
    let bytes = seq![version, 0u8];
    assert forall|before: Seq<u8>, after: Seq<u8>|
        box_in(#[trigger] (before + bytes + after), before.len() as int) == Ok::<
            (BoxView, int),
            DefFault,
        >((blank_box(NodeBoxType::Regular), before.len() as int + bytes.len())) by {
        let p = before + bytes + after;
        assert(p[before.len() as int] == version);
        assert(p[before.len() as int + 1] == 0);
    }
}

#[verifier::rlimit(50)]
proof fn fixed_shape_list(
    before: Seq<u8>,
    version: u8,
    kind: u8,
    list: Seq<Aabb>,
    after: Seq<u8>,
)
    requires
        list.len() <= 65535,
    ensures
        ({
            let bytes = seq![version, kind] + be16(list.len() as u16) + boxes_be(list);
            let p = before + bytes + after;
            let at = before.len() as int;
            &&& p[at] == version
            &&& p[at + 1] == kind
            &&& p.len() >= at + 2
            &&& aabbs_in(p, at + 2) == Some((list, at + bytes.len()))
        }),
{
    let n = be16(list.len() as u16);
    let head = seq![version, kind];
    let q = boxes_be(list);
    shape_head(before, version, kind, n + q, after);
    assert(head + n + q == head + (n + q)) by {
        regrouped(head, n, q, seq![], seq![], seq![]);
    }
    assert(before + head + (n + q) + after == before + head + n + q + after) by {
        regrouped(before + head, n, q, after, seq![], seq![]);
    }
    boxes_are_read_as_written(before + head, list, after);
}

proof fn shape_from_list(p: Seq<u8>, at: int, kind: u8, list: Seq<Aabb>, end: int)
    requires
        0 <= at,
        at + 2 <= p.len(),
        p[at] >= 6,
        p[at + 1] == kind,
        kind == 1 || kind == 3,
        aabbs_in(p, at + 2) == Some((list, end)),
    ensures
        box_in(p, at) == Ok::<(BoxView, int), DefFault>(
            (
                BoxView {
                    fixed: list,
                    ..blank_box(
                        if kind == 1 {
                            NodeBoxType::Fixed
                        } else {
                            NodeBoxType::Leveled
                        },
                    )
                },
                end,
            ),
        ),
{
}

#[verifier::rlimit(50)]
proof fn mounted_shape_boxes(
    before: Seq<u8>,
    version: u8,
    top: Aabb,
    bottom: Aabb,
    side: Aabb,
    after: Seq<u8>,
)
    ensures
        ({
            let bytes = seq![version, 2u8] + boxes_be(seq![top, bottom, side]);
            let p = before + bytes + after;
            let at = before.len() as int;
            &&& p[at] == version
            &&& p[at + 1] == 2
            &&& bytes.len() == 74
            &&& p.len() >= at + 74
            &&& aabb_at(p, at + 2) == top
            &&& aabb_at(p, at + 26) == bottom
            &&& aabb_at(p, at + 50) == side
        }),
{
    let list = seq![top, bottom, side];
    shape_head(before, version, 2, boxes_be(list), after);
    let front = before + seq![version, 2u8];
    box_in_a_row(front, list, after, 0);
    box_in_a_row(front, list, after, 1);
    box_in_a_row(front, list, after, 2);
    assert(boxes_be(list).len() == 72);
}

proof fn fixed_shape_is_read(version: u8, kind: u8, list: Seq<Aabb>)
    requires
        version >= 6,
        kind == 1 || kind == 3,
        list.len() <= 65535,
    ensures
        writes_shape(
            seq![version, kind] + be16(list.len() as u16) + boxes_be(list),
            (BoxView {
                fixed: list,
                ..blank_box(
                    if kind == 1 {
                        NodeBoxType::Fixed
                    } else {
                        NodeBoxType::Leveled
                    },
                )
            }),
        ),
{
    let bytes = seq![version, kind] + be16(list.len() as u16) + boxes_be(list);
    let shape = BoxView {
        fixed: list,
        ..blank_box(
            if kind == 1 {
                NodeBoxType::Fixed
            } else {
                NodeBoxType::Leveled
            },
        )
    };
    assert forall|before: Seq<u8>, after: Seq<u8>|
        box_in(#[trigger] (before + bytes + after), before.len() as int) == Ok::<
            (BoxView, int),
            DefFault,
        >((shape, before.len() as int + bytes.len())) by {
        let p = before + bytes + after;
        fixed_shape_list(before, version, kind, list, after);
        shape_from_list(p, before.len() as int, kind, list, before.len() as int + bytes.len());
    }
}

proof fn mounted_shape_is_read(version: u8, top: Aabb, bottom: Aabb, side: Aabb)
    requires
        version >= 6,
    ensures
        writes_shape(
            seq![version, 2u8] + boxes_be(seq![top, bottom, side]),
            (BoxView {
                wall_top: top,
                wall_bottom: bottom,
                wall_side: side,
                ..blank_box(NodeBoxType::WallMounted)
            }),
        ),
{
    let bytes = seq![version, 2u8] + boxes_be(seq![top, bottom, side]);
    let shape = BoxView {
        wall_top: top,
        wall_bottom: bottom,
        wall_side: side,
        ..blank_box(NodeBoxType::WallMounted)
    };
    assert forall|before: Seq<u8>, after: Seq<u8>|
        box_in(#[trigger] (before + bytes + after), before.len() as int) == Ok::<
            (BoxView, int),
            DefFault,
        >((shape, before.len() as int + bytes.len())) by {
        mounted_shape_boxes(before, version, top, bottom, side, after);
    }
}

#[verifier::rlimit(50)]
proof fn connected_shape_is_read(version: u8, lists: Seq<Seq<Aabb>>)
    requires
        version >= 6,
        lists.len() == 15,
        forall|i: int| 0 <= i < lists.len() ==> (#[trigger] lists[i]).len() <= 65535,
    ensures
        writes_shape(
            seq![version, 4u8] + lists_be(lists),
            (BoxView {
                fixed: lists[0],
                connected: ConnectedView {
                    connect_top: lists[1],
                    connect_bottom: lists[2],
                    connect_front: lists[3],
                    connect_left: lists[4],
                    connect_back: lists[5],
                    connect_right: lists[6],
                    disconnected_top: lists[7],
                    disconnected_bottom: lists[8],
                    disconnected_front: lists[9],
                    disconnected_left: lists[10],
                    disconnected_back: lists[11],
                    disconnected_right: lists[12],
                    disconnected: lists[13],
                    disconnected_sides: lists[14],
                },
                ..blank_box(NodeBoxType::Connected)
            }),
        ),
{
    let head = seq![version, 4u8];
    let bytes = head + lists_be(lists);
    assert forall|before: Seq<u8>, after: Seq<u8>|
        aabb_lists_in(
            #[trigger] (before + bytes + after),
            before.len() as int + 2,
            15,
        ) == Some((lists, before.len() as int + bytes.len())) && (before + bytes
            + after)[before.len() as int] == version && (before + bytes + after)[before.len()
            as int + 1] == 4 by {
        shape_head(before, version, 4, lists_be(lists), after);
        lists_come_back(before + head, lists, after);
    }
}

/// The boxes that a shape of each type lacks.
pub proof fn blank_shapes_have_no_boxes(kind: NodeBoxType)
    ensures
        blank_box(kind).box_type == kind,
        blank_box(kind).fixed.len() == 0,
        blank_box(kind).connected.disconnected.len() == 0,
        blank_box(kind).connected.connect_top.len() == 0,
{
}

/// The types that are written as numbers.
pub proof fn types_are_numbered(b: u8)
    ensures
        param_type_2_of(b) is Facedir <==> b == 2,
        param_type_2_of(b) is WallMounted <==> b == 3,
        param_type_2_of(b) is Leveled <==> b == 8,
        param_type_2_of(b) is FourDir <==> b == 9,
        param_type_2_of(b) is DegRotate <==> b == 10,
        param_type_2_of(b) is FlowingLiquid <==> b == 11,
        param_type_2_of(b) is ColoredFacedir <==> b == 12,
        param_type_2_of(b) is ColoredWallMounted <==> b == 13,
        param_type_2_of(b) is ColoredFourDir <==> b == 14,
        param_type_2_of(b) is ColoredDegRotate <==> b == 15,
        drawtype_of(b) is Airlike <==> b == 1,
        drawtype_of(b) is Liquid <==> b == 2,
        drawtype_of(b) is FlowingLiquid <==> b == 3,
        drawtype_of(b) is Glasslike <==> b == 4,
        drawtype_of(b) is Allfaces <==> b == 5,
        drawtype_of(b) is AllfacesOptional <==> b == 6,
        drawtype_of(b) is Torchlike <==> b == 7,
        drawtype_of(b) is Signlike <==> b == 8,
        drawtype_of(b) is Plantlike <==> b == 9,
        drawtype_of(b) is Firelike <==> b == 10,
        drawtype_of(b) is Fencelike <==> b == 11,
        drawtype_of(b) is Raillike <==> b == 12,
        drawtype_of(b) is Nodebox <==> b == 13,
        drawtype_of(b) is Mesh <==> b == 14,
        drawtype_of(b) is GlasslikeFramed <==> b == 15,
        drawtype_of(b) is GlasslikeFramedOptional <==> b == 16,
        drawtype_of(b) is AllfacesOptionalVertical <==> b == 17,
        drawtype_of(b) is PlantlikeRooted <==> b == 18,
        liquid_type_of(b) is Source <==> b == 1,
        liquid_type_of(b) is Flowing <==> b == 2,
        box_type_of(b) is Fixed <==> b == 1,
        box_type_of(b) is WallMounted <==> b == 2,
        box_type_of(b) is Leveled <==> b == 3,
        box_type_of(b) is Connected <==> b == 4,
{
}

proof fn field_len(data: Seq<u8>)
    requires
        data.len() <= 65535,
    ensures
        bytes_field(data).len() == 2 + data.len(),
{
}

/// A group's name as it is written, and its rating.
pub ghost struct WrittenGroup {
    pub name: Seq<u8>,
    pub rating: i16,
}

/// Groups as they are written, one behind the other.
pub open spec fn groups_be(groups: Seq<WrittenGroup>) -> Seq<u8>
    decreases groups.len(),
{
    if groups.len() == 0 {
        seq![]
    } else {
        groups_be(groups.drop_last()) + bytes_field(groups.last().name) + be16(
            unsigned16(groups.last().rating),
        )
    }
}

pub open spec fn short_names(groups: Seq<WrittenGroup>) -> bool {
    forall|i: int| 0 <= i < groups.len() ==> (#[trigger] groups[i]).name.len() <= 65535
}

#[verifier::rlimit(50)]
proof fn group_behind_others(before: Seq<u8>, x: Seq<u8>, g: WrittenGroup, after: Seq<u8>)
    requires
        g.name.len() <= 65535,
    ensures
        ({
            let y = bytes_field(g.name);
            let z = be16(unsigned16(g.rating));
            let p = before + (x + y + z) + after;
            let at = before.len() as int + x.len();
            &&& p == before + x + (y + z + after)
            &&& bytes_in(p, at) == Some((g.name, at + 2 + g.name.len()))
            &&& u16_in(p, at + 2 + g.name.len()) == Some(
                (unsigned16(g.rating), at + 4 + g.name.len()),
            )
            &&& (x + y + z).len() == x.len() + 4 + g.name.len()
        }),
{
    let y = bytes_field(g.name);
    let z = be16(unsigned16(g.rating));
    let p = before + (x + y + z) + after;
    let at = before.len() as int + x.len();
    field_len(g.name);
    group_regrouped(before, x, y, z, after);
    assert(bytes_in(p, at) == Some((g.name, at + 2 + g.name.len()))) by {
        short_bytes_are_whole(before + x, g.name, z + after);
    }
    assert(u16_in(p, at + 2 + g.name.len()) == Some(
        (unsigned16(g.rating), at + 4 + g.name.len()),
    )) by {
        numbers_come_back(before + x + y, unsigned16(g.rating), 0, after);
    }
}

proof fn group_regrouped(before: Seq<u8>, x: Seq<u8>, y: Seq<u8>, z: Seq<u8>, after: Seq<u8>)
    ensures
        ({
            let p = before + (x + y + z) + after;
            &&& p == before + x + (y + z + after)
            &&& p == before + x + y + (z + after)
            &&& p == before + x + y + z + after
            &&& (before + x).len() == before.len() + x.len()
            &&& (before + x + y).len() == before.len() + x.len() + y.len()
            &&& (x + y + z).len() == x.len() + y.len() + z.len()
        }),
{
    let p = before + (x + y + z) + after;
    assert(p =~= before + x + (y + z + after));
    assert(p =~= before + x + y + (z + after));
    assert(p =~= before + x + y + z + after);
}

proof fn group_step(
    p: Seq<u8>,
    at: int,
    count: nat,
    others: Seq<(Seq<char>, i16)>,
    next: int,
    g: WrittenGroup,
)
    requires
        groups_in(p, at, count) == Some((others, next)),
        bytes_in(p, next) == Some((g.name, next + 2 + g.name.len())),
        u16_in(p, next + 2 + g.name.len()) == Some(
            (unsigned16(g.rating), next + 4 + g.name.len()),
        ),
    ensures
        groups_in(p, at, count + 1) == Some(
            (others.push((utf8_lossy(g.name), g.rating)), next + 4 + g.name.len()),
        ),
{
    signed_numbers_come_back(g.rating, 0, 0);
}

#[verifier::rlimit(50)]
proof fn groups_come_back(before: Seq<u8>, groups: Seq<WrittenGroup>, after: Seq<u8>)
    requires
        short_names(groups),
    ensures
        groups_in(before + groups_be(groups) + after, before.len() as int, groups.len()) == Some(
            (
                groups.map_values(|g: WrittenGroup| (utf8_lossy(g.name), g.rating)),
                before.len() as int + groups_be(groups).len(),
            ),
        ),
    decreases groups.len(),
{
    let view = |g: WrittenGroup| (utf8_lossy(g.name), g.rating);
    if groups.len() == 0 {
        assert(groups.map_values(view) =~= seq![]);
    } else {
        let fewer = groups.drop_last();
        let g = groups.last();
        assert(g == groups[groups.len() - 1]);
        assert(short_names(fewer)) by {
            assert forall|i: int| 0 <= i < fewer.len() implies (#[trigger] fewer[i]).name.len()
                <= 65535 by {
                assert(fewer[i] == groups[i]);
            }
        }
        let x = groups_be(fewer);
        let p = before + groups_be(groups) + after;
        groups_come_back(before, fewer, bytes_field(g.name) + be16(unsigned16(g.rating)) + after);
        group_behind_others(before, x, g, after);
        group_step(
            p,
            before.len() as int,
            fewer.len(),
            fewer.map_values(view),
            before.len() as int + x.len(),
            g,
        );
        assert(fewer.map_values(view).push(view(g)) =~= groups.map_values(view));
    }
}

/// The start of a definition as it is written.
pub open spec fn head_be(version: u8, name: Seq<u8>, groups: Seq<WrittenGroup>) -> Seq<u8> {
    seq![version] + bytes_field(name) + be16(groups.len() as u16) + groups_be(groups)
}

proof fn head_parts(
    before: Seq<u8>,
    w: Seq<u8>,
    x: Seq<u8>,
    y: Seq<u8>,
    z: Seq<u8>,
    after: Seq<u8>,
)
    requires
        w.len() == 1,
        y.len() == 2,
    ensures
        ({
            let p = before + (w + x + y + z) + after;
            let at = before.len() as int;
            &&& p == before + w + x + (y + z + after)
            &&& p == before + w + x + y + (z + after)
            &&& p == before + w + x + y + z + after
            &&& p[at] == w[0]
            &&& p.len() == at + 3 + x.len() + z.len() + after.len()
            &&& (before + w).len() == at + 1
            &&& (before + w + x).len() == at + 1 + x.len()
            &&& (before + w + x + y).len() == at + 3 + x.len()
            &&& (w + x + y + z).len() == 3 + x.len() + z.len()
        }),
{
    let p = before + (w + x + y + z) + after;
    assert(p =~= before + w + x + (y + z + after));
    assert(p =~= before + w + x + y + (z + after));
    assert(p =~= before + w + x + y + z + after);
}

/// The start of a definition is read as it was written: the node's name, and its groups
/// with their ratings in order.
#[verifier::rlimit(50)]
pub proof fn head_is_read_as_written(
    before: Seq<u8>,
    version: u8,
    name: Seq<u8>,
    groups: Seq<WrittenGroup>,
    after: Seq<u8>,
)
    requires
        version >= 13,
        name.len() <= 65535,
        groups.len() <= 65535,
        short_names(groups),
    ensures
        head_in(before + head_be(version, name, groups) + after, before.len() as int) == Ok::<
            ((Seq<char>, Seq<(Seq<char>, i16)>), int),
            DefFault,
        >(
            (
                (
                    utf8_lossy(name),
                    groups.map_values(|g: WrittenGroup| (utf8_lossy(g.name), g.rating)),
                ),
                before.len() as int + head_be(version, name, groups).len(),
            ),
        ),
{
    let w = seq![version];
    let x = bytes_field(name);
    let n = groups.len() as u16;
    let y = be16(n);
    let z = groups_be(groups);
    let at = before.len() as int;
    let p = before + head_be(version, name, groups) + after;
    field_len(name);
    head_parts(before, w, x, y, z, after);
    let named = at + 1 + x.len();
    assert(bytes_in(p, at + 1) == Some((name, named))) by {
        short_bytes_are_whole(before + w, name, y + z + after);
    }
    assert(u16_in(p, named) == Some((n, named + 2))) by {
        numbers_come_back(before + w + x, n, 0, z + after);
    }
    groups_come_back(before + w + x + y, groups, after);
}

/// How a node is drawn, as it is written.
pub open spec fn kind_be(param1: u8, param2: u8, draw: u8, mesh: Seq<u8>, scale: Seq<u8>) -> Seq<
    u8,
> {
    seq![param1, param2, draw] + bytes_field(mesh) + scale
}

proof fn kind_parts(before: Seq<u8>, w: Seq<u8>, x: Seq<u8>, y: Seq<u8>, after: Seq<u8>)
    requires
        w.len() == 3,
        y.len() == 4,
    ensures
        ({
            let p = before + (w + x + y) + after;
            let at = before.len() as int;
            &&& p == before + w + x + (y + after)
            &&& p[at + 1] == w[1]
            &&& p[at + 2] == w[2]
            &&& (before + w).len() == at + 3
            &&& (w + x + y).len() == 7 + x.len()
            &&& p.len() == at + 7 + x.len() + after.len()
        }),
{
    let p = before + (w + x + y) + after;
    assert(p =~= before + w + x + (y + after));
}

/// How a node is drawn is read as it was written.
#[verifier::rlimit(50)]
pub proof fn kind_is_read_as_written(
    before: Seq<u8>,
    param1: u8,
    param2: u8,
    draw: u8,
    mesh: Seq<u8>,
    scale: Seq<u8>,
    after: Seq<u8>,
)
    requires
        mesh.len() <= 65535,
        scale.len() == 4,
    ensures
        kind_in(
            before + kind_be(param1, param2, draw, mesh, scale) + after,
            before.len() as int,
        ) == Some(
            (
                (param_type_2_of(param2), drawtype_of(draw)),
                before.len() as int + kind_be(param1, param2, draw, mesh, scale).len(),
            ),
        ),
{
    let w = seq![param1, param2, draw];
    let x = bytes_field(mesh);
    let at = before.len() as int;
    let p = before + kind_be(param1, param2, draw, mesh, scale) + after;
    field_len(mesh);
    kind_parts(before, w, x, scale, after);
    assert(bytes_in(p, at + 3) == Some((mesh, at + 3 + x.len()))) by {
        short_bytes_are_whole(before + w, mesh, scale + after);
    }
}

/// What a node connects to, as it is written.
pub open spec fn connections_be(
    colours: Seq<u8>,
    palette: Seq<u8>,
    waving: u8,
    sides: u8,
    ids: Seq<u16>,
) -> Seq<u8> {
    colours + bytes_field(palette) + seq![waving, sides] + be16(ids.len() as u16) + units_be(ids)
}

proof fn connection_parts(
    before: Seq<u8>,
    w: Seq<u8>,
    x: Seq<u8>,
    y: Seq<u8>,
    z: Seq<u8>,
    u: Seq<u8>,
    after: Seq<u8>,
)
    requires
        w.len() == 4,
        y.len() == 2,
        z.len() == 2,
    ensures
        ({
            let p = before + (w + x + y + z + u) + after;
            let at = before.len() as int;
            &&& p == before + w + x + (y + z + u + after)
            &&& p == before + w + x + y + z + (u + after)
            &&& p == before + w + x + y + z + u + after
            &&& p[at + 5 + x.len()] == y[1]
            &&& (before + w).len() == at + 4
            &&& (before + w + x + y).len() == at + 6 + x.len()
            &&& (before + w + x + y + z).len() == at + 8 + x.len()
            &&& (w + x + y + z + u).len() == 8 + x.len() + u.len()
            &&& p.len() == at + 8 + x.len() + u.len() + after.len()
        }),
{
    let p = before + (w + x + y + z + u) + after;
    assert(p =~= before + w + x + (y + z + u + after));
    assert(p =~= before + w + x + y + z + (u + after));
    assert(p =~= before + w + x + y + z + u + after);
}

/// What a node connects to is read as it was written: the sides, and all the ids in order.
#[verifier::rlimit(50)]
pub proof fn connections_are_read_as_written(
    before: Seq<u8>,
    colours: Seq<u8>,
    palette: Seq<u8>,
    waving: u8,
    sides: u8,
    ids: Seq<u16>,
    after: Seq<u8>,
)
    requires
        colours.len() == 4,
        palette.len() <= 65535,
        ids.len() <= 65535,
    ensures
        connections_in(
            before + connections_be(colours, palette, waving, sides, ids) + after,
            before.len() as int,
        ) == Some(
            (
                (sides, ids),
                before.len() as int + connections_be(colours, palette, waving, sides, ids).len(),
            ),
        ),
{
    let w = colours;
    let x = bytes_field(palette);
    let y = seq![waving, sides];
    let n = ids.len() as u16;
    let z = be16(n);
    let u = units_be(ids);
    let at = before.len() as int;
    let p = before + connections_be(colours, palette, waving, sides, ids) + after;
    field_len(palette);
    connection_parts(before, w, x, y, z, u, after);
    let front = at + 4 + x.len();
    assert(bytes_in(p, at + 4) == Some((palette, front))) by {
        short_bytes_are_whole(before + w, palette, y + z + u + after);
    }
    assert(u16_in(p, front + 2) == Some((n, front + 4))) by {
        numbers_come_back(before + w + x + y, n, 0, u + after);
    }
    assert(units_in(p, front + 4, ids.len() as int) == ids) by {
        units_come_back(before + w + x + y + z, ids, after);
    }
    assert(u.len() == 2 * ids.len());
}

/// The flags of a node as they are written.
pub open spec fn flags_be(
    colour: Seq<u8>,
    leveled: u8,
    light: Seq<u8>,
    flags: Seq<u8>,
    damage: Seq<u8>,
) -> Seq<u8> {
    colour + seq![leveled] + light + flags + damage
}

/// A node's level and flags are read as they were written: the first of the six flags says
/// whether it can be walked on, the fourth whether it can be climbed.
#[verifier::rlimit(50)]
pub proof fn flags_are_read_as_written(
    before: Seq<u8>,
    colour: Seq<u8>,
    leveled: u8,
    light: Seq<u8>,
    flags: Seq<u8>,
    damage: Seq<u8>,
    after: Seq<u8>,
)
    requires
        colour.len() == 4,
        light.len() == 4,
        flags.len() == 6,
        damage.len() == 4,
    ensures
        flags_in(
            before + flags_be(colour, leveled, light, flags, damage) + after,
            before.len() as int,
        ) == Some(((leveled, flags[0] != 0, flags[3] != 0), before.len() as int + 19)),
        flags_be(colour, leveled, light, flags, damage).len() == 19,
{
    let q = flags_be(colour, leveled, light, flags, damage);
    let p = before + q + after;
    let at = before.len() as int;
    assert(q[4] == leveled && q[9] == flags[0] && q[12] == flags[3]);
    assert(p[at + 4] == q[4] && p[at + 9] == q[9] && p[at + 12] == q[12]);
}

/// What kind of liquid a node is, as it is written.
pub open spec fn liquid_be(
    kind: u8,
    flowing: Seq<u8>,
    source: Seq<u8>,
    viscosity: u8,
    rest: Seq<u8>,
) -> Seq<u8> {
    seq![kind] + bytes_field(flowing) + bytes_field(source) + seq![viscosity] + rest
}

proof fn liquid_parts(
    before: Seq<u8>,
    w: Seq<u8>,
    x: Seq<u8>,
    y: Seq<u8>,
    z: Seq<u8>,
    rest: Seq<u8>,
    after: Seq<u8>,
)
    requires
        w.len() == 1,
        z.len() == 1,
    ensures
        ({
            let p = before + (w + x + y + z + rest) + after;
            let at = before.len() as int;
            &&& p == before + w + x + (y + z + rest + after)
            &&& p == before + w + x + y + (z + rest + after)
            &&& p[at] == w[0]
            &&& p[at + 1 + x.len() + y.len()] == z[0]
            &&& p.len() == at + 2 + x.len() + y.len() + rest.len() + after.len()
            &&& (before + w).len() == at + 1
            &&& (before + w + x).len() == at + 1 + x.len()
            &&& (w + x + y + z + rest).len() == 2 + x.len() + y.len() + rest.len()
        }),
{
    let p = before + (w + x + y + z + rest) + after;
    assert(p =~= before + w + x + (y + z + rest + after));
    assert(p =~= before + w + x + y + (z + rest + after));
}

proof fn liquid_from_parts(p: Seq<u8>, at: int, a: Seq<u8>, n: int, b: Seq<u8>, m: int)
    requires
        0 <= at,
        bytes_in(p, at + 1) == Some((a, n)),
        bytes_in(p, n) == Some((b, m)),
        m + 5 <= p.len(),
    ensures
        liquid_in(p, at) == Some(((liquid_type_of(p[at]), p[m]), m + 5)),
{
}

/// What kind of liquid a node is, and its viscosity, are read as they were written.
#[verifier::rlimit(50)]
pub proof fn liquid_is_read_as_written(
    before: Seq<u8>,
    kind: u8,
    flowing: Seq<u8>,
    source: Seq<u8>,
    viscosity: u8,
    rest: Seq<u8>,
    after: Seq<u8>,
)
    requires
        flowing.len() <= 65535,
        source.len() <= 65535,
        rest.len() == 4,
    ensures
        liquid_in(
            before + liquid_be(kind, flowing, source, viscosity, rest) + after,
            before.len() as int,
        ) == Some(
            (
                (liquid_type_of(kind), viscosity),
                before.len() as int + liquid_be(kind, flowing, source, viscosity, rest).len(),
            ),
        ),
{
    let w = seq![kind];
    let x = bytes_field(flowing);
    let y = bytes_field(source);
    let z = seq![viscosity];
    let front = before + w;
    let at = before.len() as int;
    let p = before + liquid_be(kind, flowing, source, viscosity, rest) + after;
    field_len(flowing);
    field_len(source);
    liquid_parts(before, w, x, y, z, rest, after);
    assert(bytes_in(p, at + 1) == Some((flowing, at + 1 + x.len()))) by {
        short_bytes_are_whole(front, flowing, y + z + rest + after);
    }
    assert(bytes_in(p, at + 1 + x.len()) == Some((source, at + 1 + x.len() + y.len()))) by {
        short_bytes_are_whole(front + x, source, z + rest + after);
    }
    liquid_from_parts(p, at, flowing, at + 1 + x.len(), source, at + 1 + x.len() + y.len());
}

#[verifier::rlimit(50)]
proof fn sound_is_skipped(before: Seq<u8>, name: Seq<u8>, gain: Seq<u8>, after: Seq<u8>)
    requires
        name.len() <= 65535,
        gain.len() == 12,
    ensures
        sound_end(before + (bytes_field(name) + gain) + after, before.len() as int) == Some(
            before.len() as int + (bytes_field(name) + gain).len(),
        ),
{
    let x = bytes_field(name);
    let p = before + (x + gain) + after;
    assert(p == before + x + (gain + after)) by {
        regrouped(before, x, gain, after, seq![], seq![]);
    }
    short_bytes_are_whole(before, name, gain + after);
    assert(x.len() == 2 + name.len());
}

/// A sound as it is written.
pub ghost struct WrittenSound {
    pub name: Seq<u8>,
    pub gain: Seq<u8>,
}

impl WrittenSound {
    pub open spec fn short(self) -> bool {
        self.name.len() <= 65535 && self.gain.len() == 12
    }

    pub open spec fn bytes(self) -> Seq<u8> {
        bytes_field(self.name) + self.gain
    }
}

/// The end of a definition as it is written, with all that may stand there.
pub open spec fn tail_be(
    a: WrittenSound,
    b: WrittenSound,
    c: WrittenSound,
    history: Seq<u8>,
    prediction: Seq<u8>,
    last: Seq<u8>,
) -> Seq<u8> {
    a.bytes() + b.bytes() + c.bytes() + history + bytes_field(prediction) + last
}

proof fn tail_parts(
    before: Seq<u8>,
    x: Seq<u8>,
    y: Seq<u8>,
    z: Seq<u8>,
    h: Seq<u8>,
    f: Seq<u8>,
    last: Seq<u8>,
)
    requires
        h.len() == 2,
    ensures
        ({
            let p = before + (x + y + z + h + f + last);
            let at = before.len() as int;
            let n = at + x.len() + y.len() + z.len();
            &&& p == before + x + (y + z + h + f + last)
            &&& p == before + x + y + (z + h + f + last)
            &&& p == before + x + y + z + (h + f + last)
            &&& p == before + x + y + z + h + f + last
            &&& (before + x).len() == at + x.len()
            &&& (before + x + y).len() == at + x.len() + y.len()
            &&& (before + x + y + z + h).len() == n + 2
            &&& p.len() == n + 2 + f.len() + last.len()
            &&& forall|i: int|
                0 <= i < last.len() ==> p[n + 2 + f.len() + i] == #[trigger] last[i]
            &&& last.len() > 0 ==> p[n + 2 + f.len()] == last[0]
            &&& last.len() > 3 ==> p[n + 4 + f.len()] == last[2] && p[n + 5 + f.len()] == last[3]
        }),
{
    let p = before + (x + y + z + h + f + last);
    assert(p =~= before + x + (y + z + h + f + last));
    assert(p =~= before + x + y + (z + h + f + last));
    assert(p =~= before + x + y + z + (h + f + last));
    assert(p =~= before + x + y + z + h + f + last);
    let q = before + x + y + z + h + f;
    assert(forall|i: int| 0 <= i < last.len() ==> (q + last)[q.len() + i] == #[trigger] last[i]);
    if last.len() > 3 {
        assert((q + last)[q.len() as int + 2] == last[2]);
        assert((q + last)[q.len() as int + 3] == last[3]);
    }
}

proof fn tail_from_parts(p: Seq<u8>, at: int, a: int, b: int, c: int, s: Seq<u8>, m: int)
    requires
        0 <= at,
        sound_end(p, at) == Some(a),
        sound_end(p, a) == Some(b),
        sound_end(p, b) == Some(c),
        c + 2 <= p.len(),
        bytes_in(p, c + 2) == Some((s, m)),
        m == p.len() || m + 1 == p.len() || m + 4 <= p.len(),
    ensures
        tail_in(p, at) == Some(
            if m == p.len() {
                (0u8, None)
            } else if m + 1 == p.len() {
                (p[m], None)
            } else {
                (p[m], Some((p[m + 2], p[m + 3] != 0)))
            },
        ),
{
}

/// The end of a definition is read as it was written: the highest level, then, where more
/// follows, the resistance to movement and whether the node moves players as a liquid.
#[verifier::rlimit(50)]
pub proof fn tail_is_read_as_written(
    before: Seq<u8>,
    a: WrittenSound,
    b: WrittenSound,
    c: WrittenSound,
    history: Seq<u8>,
    prediction: Seq<u8>,
    last: Seq<u8>,
)
    requires
        a.short() && b.short() && c.short(),
        history.len() == 2,
        prediction.len() <= 65535,
        last.len() == 0 || last.len() == 1 || last.len() >= 4,
    ensures
        tail_in(before + tail_be(a, b, c, history, prediction, last), before.len() as int) == Some(
            if last.len() == 0 {
                (0u8, None)
            } else if last.len() == 1 {
                (last[0], None)
            } else {
                (last[0], Some((last[2], last[3] != 0)))
            },
        ),
{
    let x = a.bytes();
    let y = b.bytes();
    let z = c.bytes();
    let f = bytes_field(prediction);
    let p = before + tail_be(a, b, c, history, prediction, last);
    let at = before.len() as int;
    field_len(prediction);
    tail_parts(before, x, y, z, history, f, last);
    let front = before + x + y + z;
    assert(sound_end(p, at) == Some(at + x.len())) by {
        sound_is_skipped(before, a.name, a.gain, y + z + history + f + last);
    }
    assert(sound_end(p, at + x.len()) == Some(at + x.len() + y.len())) by {
        sound_is_skipped(before + x, b.name, b.gain, z + history + f + last);
    }
    assert(sound_end(p, at + x.len() + y.len()) == Some(at + x.len() + y.len() + z.len())) by {
        sound_is_skipped(before + x + y, c.name, c.gain, history + f + last);
    }
    let n = at + x.len() + y.len() + z.len();
    assert(bytes_in(p, n + 2) == Some((prediction, n + 2 + f.len()))) by {
        short_bytes_are_whole(front + history, prediction, last);
    }
    tail_from_parts(p, at, at + x.len(), at + x.len() + y.len(), n, prediction, n + 2 + f.len());
}

/// A definition says of a node what its parts say: it can be walked on and climbed as its
/// flags say; it moves players as a liquid where it is one or says so; its
/// resistance to movement is what the end of the definition says, or else its
/// viscosity; and of its three shapes the first is how it looks, the second how it is
/// selected, and the third how it collides.
pub proof fn features_are_those_of_the_parts(
    b: Seq<u8>,
    ends: Seq<int>,
    name: Seq<char>,
    f: FeaturesView,
    viscosity: u8,
    movement: Option<(u8, bool)>,
)
    requires
        ends.len() == 9,
        head_in(b, 0) == Ok::<((Seq<char>, Seq<(Seq<char>, i16)>), int), DefFault>(
            ((name, f.groups), ends[0]),
        ),
        kind_in(b, ends[0]) == Some(((f.param_type_2, f.drawtype), ends[1])),
        all_tiles_end(b, ends[1]) == Ok::<int, DefFault>(ends[2]),
        connections_in(b, ends[2]) == Some(((f.connect_sides, f.connects_to_ids), ends[3])),
        flags_in(b, ends[3]) == Some(((f.leveled, f.walkable, f.climbable), ends[4])),
        liquid_in(b, ends[4]) == Some(((f.liquid_type, viscosity), ends[5])),
        box_in(b, ends[5]) == Ok::<(BoxView, int), DefFault>((f.node_box, ends[6])),
        box_in(b, ends[6]) == Ok::<(BoxView, int), DefFault>((f.selection_box, ends[7])),
        box_in(b, ends[7]) == Ok::<(BoxView, int), DefFault>((f.collision_box, ends[8])),
        tail_in(b, ends[8]) == Some((f.leveled_max, movement)),
        f.liquid_move_physics == (f.liquid_type is Source || f.liquid_type is Flowing || (
        match movement {
            Some((_, liquid)) => liquid,
            None => false,
        })),
        f.move_resistance == match movement {
            Some((resistance, _)) => resistance,
            None => viscosity,
        },
        f.liquid_alternative_flowing_id == 0,
        f.liquid_alternative_source_id == 0,
    ensures
        features_in(b, 0) == Ok::<(Seq<char>, FeaturesView), DefFault>((name, f)),
{
}

/// A tile as it is written: its version, its name, its animation, its flags, and what the
/// flags announce.
pub open spec fn tile_be(
    version: u8,
    name: Seq<u8>,
    animation: u8,
    frames: Seq<u8>,
    flags: u16,
    extra: Seq<u8>,
) -> Seq<u8> {
    seq![version] + bytes_field(name) + (seq![animation] + frames) + be16(flags) + extra
}

/// A tile ends where it was written to end: eight bytes for one kind of animation, six for
/// another, three for a colour, one for a scale, one for an alignment.
#[verifier::rlimit(50)]
pub proof fn tiles_end_where_they_were_written_to(
    before: Seq<u8>,
    version: u8,
    name: Seq<u8>,
    animation: u8,
    frames: Seq<u8>,
    flags: u16,
    extra: Seq<u8>,
    after: Seq<u8>,
)
    requires
        version >= 6,
        name.len() <= 65535,
        animation == 1 ==> frames.len() == 8,
        animation == 2 ==> frames.len() == 6,
        animation != 1 && animation != 2 ==> frames.len() == 0,
        extra.len() == (if (flags / 8) % 2 == 1 {
            3int
        } else {
            0
        }) + (if (flags / 16) % 2 == 1 {
            1int
        } else {
            0
        }) + (if (flags / 32) % 2 == 1 {
            1int
        } else {
            0
        }),
    ensures
        tile_end(
            before + tile_be(version, name, animation, frames, flags, extra) + after,
            before.len() as int,
        ) == Ok::<int, DefFault>(
            before.len() as int + tile_be(version, name, animation, frames, flags, extra).len(),
        ),
{
    let w = seq![version];
    let x = bytes_field(name);
    let y = seq![animation] + frames;
    let z = be16(flags);
    let at = before.len() as int;
    let p = before + tile_be(version, name, animation, frames, flags, extra) + after;
    field_len(name);
    tile_parts(before, w, x, y, z, extra, after);
    assert(bytes_in(p, at + 1) == Some((name, at + 1 + x.len()))) by {
        short_bytes_are_whole(before + w, name, y + z + extra + after);
    }
    assert(u16_in(p, at + 1 + x.len() + y.len()) == Some(
        (flags, at + 3 + x.len() + y.len()),
    )) by {
        numbers_come_back(before + w + x + y, flags, 0, extra + after);
    }
}

proof fn tile_parts(
    before: Seq<u8>,
    w: Seq<u8>,
    x: Seq<u8>,
    y: Seq<u8>,
    z: Seq<u8>,
    extra: Seq<u8>,
    after: Seq<u8>,
)
    requires
        w.len() == 1,
        y.len() > 0,
        z.len() == 2,
    ensures
        ({
            let p = before + (w + x + y + z + extra) + after;
            let at = before.len() as int;
            &&& p == before + w + x + (y + z + extra + after)
            &&& p == before + w + x + y + z + (extra + after)
            &&& p[at] == w[0]
            &&& p[at + 1 + x.len()] == y[0]
            &&& (before + w).len() == at + 1
            &&& (before + w + x + y).len() == at + 1 + x.len() + y.len()
            &&& (w + x + y + z + extra).len() == 3 + x.len() + y.len() + extra.len()
            &&& p.len() == at + 3 + x.len() + y.len() + extra.len() + after.len()
        }),
{
    let p = before + (w + x + y + z + extra) + after;
    assert(p =~= before + w + x + (y + z + extra + after));
    assert(p =~= before + w + x + y + z + (extra + after));
}

/// A definition that is taken is what is known of its id from then on; all other ids keep
/// what was known of them, and those in between are not walkable.
pub proof fn definition_is_known_by_its_id(
    m: ManagerView,
    id: u16,
    name: Seq<char>,
    f: FeaturesView,
    other: u16,
)
    ensures
        ({
            let after = with_definition(m, id, name, f);
            &&& id < after.features.len()
            &&& after.features[id as int] == f
            &&& other != id && other < m.features.len() ==> other < after.features.len()
                && after.features[other as int] == m.features[other as int]
            &&& m.features.len() <= other < id ==> after.features[other as int]
                == undefined_features() && !after.features[other as int].walkable
            &&& after.features.len() == if id < m.features.len() {
                m.features.len()
            } else {
                (id + 1) as nat
            }
            &&& last_name(after.names, id) == Some(name)
            &&& other != id ==> last_name(after.names, other) == last_name(m.names, other)
            &&& last_id_of(after.names, name) == Some(id)
            &&& after.names.len() == m.names.len() + 1
            &&& after.names.drop_last() == m.names
        }),
{
    let after = with_definition(m, id, name, f);
    assert(after.names.drop_last() =~= m.names);
}

/// The first name of an id is one that it was given, and none before it was; likewise the
/// last one.
pub proof fn names_are_found(names: Seq<(Seq<char>, u16)>, id: u16)
    ensures
        match first_name(names, id) {
            Some(name) => exists|i: int|
                0 <= i < names.len() && #[trigger] names[i] == (name, id) && forall|k: int|
                    0 <= k < i ==> (#[trigger] names[k]).1 != id,
            None => forall|k: int| 0 <= k < names.len() ==> (#[trigger] names[k]).1 != id,
        },
        match last_name(names, id) {
            Some(name) => exists|i: int|
                0 <= i < names.len() && #[trigger] names[i] == (name, id) && forall|k: int|
                    i < k < names.len() ==> (#[trigger] names[k]).1 != id,
            None => forall|k: int| 0 <= k < names.len() ==> (#[trigger] names[k]).1 != id,
        },
    decreases names.len(),
{
    if names.len() > 0 {
        first_name_is_found(names, id);
        last_name_is_found(names, id);
    }
}

proof fn first_name_is_found(names: Seq<(Seq<char>, u16)>, id: u16)
    ensures
        match first_name(names, id) {
            Some(name) => exists|i: int|
                0 <= i < names.len() && #[trigger] names[i] == (name, id) && forall|k: int|
                    0 <= k < i ==> (#[trigger] names[k]).1 != id,
            None => forall|k: int| 0 <= k < names.len() ==> (#[trigger] names[k]).1 != id,
        },
    decreases names.len(),
{
    if names.len() > 0 {
        if names[0].1 == id {
            assert(names[0] == (names[0].0, id));
        } else {
            let rest = names.drop_first();
            first_name_is_found(rest, id);
            match first_name(rest, id) {
                Some(name) => {
                    let j = choose|i: int|
                        0 <= i < rest.len() && #[trigger] rest[i] == (name, id) && forall|k: int|
                            0 <= k < i ==> (#[trigger] rest[k]).1 != id;
                    assert(names[j + 1] == (name, id));
                    assert forall|k: int| 0 <= k < j + 1 implies (#[trigger] names[k]).1 != id by {
                        if k > 0 {
                            assert(rest[k - 1] == names[k]);
                        }
                    }
                },
                None => {
                    assert forall|k: int| 0 <= k < names.len() implies (#[trigger] names[k]).1
                        != id by {
                        if k > 0 {
                            assert(rest[k - 1] == names[k]);
                        }
                    }
                },
            }
        }
    }
}

proof fn last_name_is_found(names: Seq<(Seq<char>, u16)>, id: u16)
    ensures
        match last_name(names, id) {
            Some(name) => exists|i: int|
                0 <= i < names.len() && #[trigger] names[i] == (name, id) && forall|k: int|
                    i < k < names.len() ==> (#[trigger] names[k]).1 != id,
            None => forall|k: int| 0 <= k < names.len() ==> (#[trigger] names[k]).1 != id,
        },
    decreases names.len(),
{
    if names.len() > 0 {
        let n = names.len() - 1;
        if names[n].1 == id {
            assert(names[n] == (names[n].0, id));
        } else {
            let rest = names.drop_last();
            last_name_is_found(rest, id);
            match last_name(rest, id) {
                Some(name) => {
                    let j = choose|i: int|
                        0 <= i < rest.len() && #[trigger] rest[i] == (name, id) && forall|k: int|
                            i < k < rest.len() ==> (#[trigger] rest[k]).1 != id;
                    assert(names[j] == (name, id));
                    assert forall|k: int| j < k < names.len() implies (#[trigger] names[k]).1
                        != id by {
                        if k < n {
                            assert(rest[k] == names[k]);
                        }
                    }
                },
                None => {
                    assert forall|k: int| 0 <= k < names.len() implies (#[trigger] names[k]).1
                        != id by {
                        if k < n {
                            assert(rest[k] == names[k]);
                        }
                    }
                },
            }
        }
    }
}

/// Only liquids get other forms, and only where air is known and a form is missing.
pub proof fn liquids_turn_into_air(f: FeaturesView, air: Option<u16>)
    ensures
        ({
            let after = crossrefs_resolved(f, air);
            let liquid = f.liquid_type is Source || f.liquid_type is Flowing;
            &&& after.liquid_alternative_flowing_id == if liquid && air is Some
                && f.liquid_alternative_flowing_id == 0 {
                air->0
            } else {
                f.liquid_alternative_flowing_id
            }
            &&& after.liquid_alternative_source_id == if liquid && air is Some
                && f.liquid_alternative_source_id == 0 {
                air->0
            } else {
                f.liquid_alternative_source_id
            }
            &&& after.walkable == f.walkable && after.collision_box == f.collision_box
                && after.climbable == f.climbable && after.liquid_type == f.liquid_type
        }),
{
}

proof fn definition_step(
    p: Seq<u8>,
    at: int,
    id: u16,
    definition: Seq<u8>,
    next: int,
    count: nat,
    m: ManagerView,
)
    requires
        u16_in(p, at) == Some((id, at + 2)),
        bytes_in(p, at + 2) == Some((definition, next)),
    ensures
        definitions_in(p, at, 0, m) == Ok::<ManagerView, DefFault>(m),
        definitions_in(p, at, count + 1, m) == match features_in(definition, 0) {
            Ok((name, f)) => definitions_in(p, next, count, with_definition(m, id, name, f)),
            Err(e) => Err(e),
        },
{
}

#[verifier::rlimit(50)]
proof fn definition_parts(before: Seq<u8>, id: u16, definition: Seq<u8>, after: Seq<u8>)
    requires
        definition.len() <= 65535,
    ensures
        ({
            let p = before + be16(id) + bytes_field(definition) + after;
            let at = before.len() as int;
            &&& u16_in(p, at) == Some((id, at + 2))
            &&& bytes_in(p, at + 2) == Some((definition, at + 4 + definition.len()))
        }),
{
    let x = be16(id);
    let y = bytes_field(definition);
    let p = before + x + y + after;
    let at = before.len() as int;
    field_len(definition);
    assert(u16_in(p, at) == Some((id, at + 2))) by {
        regrouped(before, x, y, after, seq![], seq![]);
        numbers_come_back(before, id, 0, y + after);
    }
    assert(bytes_in(p, at + 2) == Some((definition, at + 4 + definition.len()))) by {
        short_bytes_are_whole(before + x, definition, after);
    }
}

#[verifier::rlimit(50)]
proof fn number_parts(version: u8, count: u16, content: Seq<u8>, after: Seq<u8>)
    requires
        content.len() <= u32::MAX,
    ensures
        ({
            let p = seq![version] + be16(count) + be32(content.len() as u32) + content + after;
            &&& p.len() >= 7
            &&& p[0] == version
            &&& u16_in(p, 1) == Some((count, 3int))
            &&& long_bytes_in(p, 3) == Some((content, 7 + content.len() as int))
        }),
{
    let w = seq![version];
    let x = be16(count);
    let n = content.len() as u32;
    let y = be32(n);
    let p = w + x + y + content + after;
    assert((w + x).len() == 3 && (w + x + y).len() == 7);
    assert(p[0] == version) by {
        regrouped(w, x, y, content, after, seq![]);
    }
    assert(u16_in(p, 1) == Some((count, 3int))) by {
        regrouped(w, x, y, content, after, seq![]);
        numbers_come_back(w, count, 0, y + content + after);
    }
    assert(u32_in(p, 3) == Some((n, 7int))) by {
        regrouped(w, x, y, content, after, seq![]);
        numbers_come_back(w + x, 0, n, content + after);
    }
    assert(p.subrange(7, 7 + n as int) == content && p.len() == 7 + content.len()
        + after.len()) by {
        part_between(w + x + y, content, after);
    }
}

proof fn numbered_step(p: Seq<u8>, version: u8, count: u16, content: Seq<u8>)
    requires
        p.len() >= 7,
        p[0] == version,
        u16_in(p, 1) == Some((count, 3int)),
        long_bytes_in(p, 3) == Some((content, 7 + content.len() as int)),
    ensures
        nodedef_of(p) == if version == 0 {
            Err::<ManagerView, DefFault>(DefFault::ManagerVersion(0))
        } else {
            definitions_in(
                content,
                0,
                count as nat,
                ManagerView { features: seq![], names: seq![] },
            )
        },
{
}

/// Definitions are taken one after the other, each under the id before it.
pub proof fn definitions_are_taken_in_order(
    before: Seq<u8>,
    id: u16,
    definition: Seq<u8>,
    after: Seq<u8>,
    count: nat,
    m: ManagerView,
)
    requires
        definition.len() <= 65535,
    ensures
        ({
            let p = before + be16(id) + bytes_field(definition) + after;
            let at = before.len() as int;
            &&& definitions_in(p, at, 0, m) == Ok::<ManagerView, DefFault>(m)
            &&& definitions_in(p, at, count + 1, m) == match features_in(definition, 0) {
                Ok((name, f)) => definitions_in(
                    p,
                    at + 4 + definition.len(),
                    count,
                    with_definition(m, id, name, f),
                ),
                Err(e) => Err(e),
            }
        }),
{
    let p = before + be16(id) + bytes_field(definition) + after;
    let at = before.len() as int;
    definition_parts(before, id, definition, after);
    definition_step(p, at, id, definition, at + 4 + definition.len() as int, count, m);
}

/// The definitions stand behind a version, their number, and the length of them all.
pub proof fn definitions_stand_behind_their_number(
    version: u8,
    count: u16,
    content: Seq<u8>,
    after: Seq<u8>,
)
    requires
        content.len() <= u32::MAX,
    ensures
        nodedef_of(seq![version] + be16(count) + be32(content.len() as u32) + content + after)
            == if version == 0 {
            Err::<ManagerView, DefFault>(DefFault::ManagerVersion(0))
        } else {
            definitions_in(
                content,
                0,
                count as nat,
                ManagerView { features: seq![], names: seq![] },
            )
        },
{
    let p = seq![version] + be16(count) + be32(content.len() as u32) + content + after;
    number_parts(version, count, content, after);
    numbered_step(p, version, count, content);
}

/// A value lies within a box along an axis: neither below the least nor above the greatest one.
pub open spec fn holds(least: u32, greatest: u32, value: u32) -> bool {
    order_key(least) <= order_key(value) <= order_key(greatest)
}

/// A box that is grown to hold a point holds it, and everything that it held before; each of its
/// limits is one that it had or one of the point.
pub proof fn grown_boxes_hold_the_point(a: Aabb, p: Vec3, q: Vec3)
    requires
        !nan_bits(a.min.x) && !nan_bits(a.min.y) && !nan_bits(a.min.z),
        !nan_bits(a.max.x) && !nan_bits(a.max.y) && !nan_bits(a.max.z),
        !nan_bits(p.x) && !nan_bits(p.y) && !nan_bits(p.z),
    ensures
        ({
            let b = grown(a, p);
            &&& holds(b.min.x, b.max.x, p.x) && holds(b.min.y, b.max.y, p.y) && holds(
                b.min.z,
                b.max.z,
                p.z,
            )
            &&& holds(a.min.x, a.max.x, q.x) ==> holds(b.min.x, b.max.x, q.x)
            &&& holds(a.min.y, a.max.y, q.y) ==> holds(b.min.y, b.max.y, q.y)
            &&& holds(a.min.z, a.max.z, q.z) ==> holds(b.min.z, b.max.z, q.z)
            &&& b.min.x == a.min.x || b.min.x == p.x
            &&& b.min.y == a.min.y || b.min.y == p.y
            &&& b.min.z == a.min.z || b.min.z == p.z
            &&& b.max.x == a.max.x || b.max.x == p.x
            &&& b.max.y == a.max.y || b.max.y == p.y
            &&& b.max.z == a.max.z || b.max.z == p.z
        }),
{
}

/// A value that is no number counts for nothing.
pub proof fn nothing_grows_by_what_is_no_number(a: u32, b: u32)
    ensures
        nan_bits(b) && !nan_bits(a) ==> min_bits(a, b) == a && max_bits(a, b) == a,
        nan_bits(a) ==> min_bits(a, b) == b && max_bits(a, b) == b,
        nan_bits(a) <==> a % 0x8000_0000 > 0x7f80_0000,
{
}

/// Positive numbers are ordered as their patterns are, negative ones the other way round and below
/// them, and both zeros are one.
pub proof fn patterns_are_ordered(a: u32, b: u32)
    requires
        a < 0x8000_0000,
        b < 0x8000_0000,
    ensures
        order_key(a) <= order_key(b) <==> a <= b,
        order_key((a + 0x8000_0000) as u32) == -order_key(a),
{
}

proof fn tiles_follow_each_other(b: Seq<u8>, ends: Seq<int>)
    requires
        ends.len() >= 1,
        forall|i: int|
            0 <= i < ends.len() - 1 ==> tile_end(b, #[trigger] ends[i]) == Ok::<int, DefFault>(
                ends[i + 1],
            ),
    ensures
        tiles_end(b, ends[0], (ends.len() - 1) as nat) == Ok::<int, DefFault>(ends.last()),
    decreases ends.len(),
{
    if ends.len() > 1 {
        let rest = ends.drop_first();
        assert(tile_end(b, ends[0]) == Ok::<int, DefFault>(ends[1]));
        assert forall|i: int| 0 <= i < rest.len() - 1 implies tile_end(b, #[trigger] rest[i])
            == Ok::<int, DefFault>(rest[i + 1]) by {
            assert(rest[i] == ends[i + 1]);
        }
        tiles_follow_each_other(b, rest);
    }
}

/// A definition has six tiles and six overlays, and then as many others as it says.
pub proof fn all_tiles_follow_each_other(b: Seq<u8>, at: int, ends: Seq<int>, more: Seq<int>)
    requires
        0 <= at < b.len(),
        b[at] == 6,
        ends.len() == 13,
        ends[0] == at + 1,
        forall|i: int|
            0 <= i < 12 ==> tile_end(b, #[trigger] ends[i]) == Ok::<int, DefFault>(ends[i + 1]),
        0 <= ends[12] < b.len(),
        more.len() == b[ends[12]] + 1,
        more[0] == ends[12] + 1,
        forall|i: int|
            0 <= i < more.len() - 1 ==> tile_end(b, #[trigger] more[i]) == Ok::<int, DefFault>(
                more[i + 1],
            ),
    ensures
        all_tiles_end(b, at) == Ok::<int, DefFault>(more.last()),
{
    tiles_follow_each_other(b, ends);
    tiles_follow_each_other(b, more);
}

/// A definition with another number of tiles, or of too old a version, is refused.
pub proof fn old_definitions_are_refused(b: Seq<u8>, at: int)
    requires
        0 <= at < b.len(),
    ensures
        b[at] != 6 ==> all_tiles_end(b, at) == Err::<int, DefFault>(DefFault::TileCount(b[at])),
        b[at] < 6 ==> tile_end(b, at) == Err::<int, DefFault>(DefFault::TileVersion(b[at])),
        b[at] < 6 ==> box_in(b, at) == Err::<(BoxView, int), DefFault>(
            DefFault::BoxVersion(b[at]),
        ),
        b[at] < 13 ==> head_in(b, at) == Err::<
            ((Seq<char>, Seq<(Seq<char>, i16)>), int),
            DefFault,
        >(DefFault::FeaturesVersion(b[at])),
{
}

} // verus!
