//! Conversion of an LDtk map into the rooms of the game world.
//!
//! The map file itself is read and parsed elsewhere; this module turns the
//! parsed map into room maps: tile layers, collisions, mob spawns, portals
//! between rooms and the player start.
use vstd::prelude::*;

use crate::room::{ForegroundTile, RoomId, TileIndex, UVec2};
use crate::room_state::{MobSpawn, MobSpawnView, Portal, RoomMap, RoomMapView};
use crate::text::str_eq;

verus! {

// ---------------------------------------------------------------------------
// The parsed map file
// ---------------------------------------------------------------------------

/// A parsed LDtk map.
#[derive(Debug, Clone)]
pub struct LdtkMap {
    pub default_grid_size: u32,
    pub defs: LdtkDefs,
    pub levels: Vec<LdtkLevel>,
}

/// Definitions shared by all levels.
#[derive(Debug, Clone)]
pub struct LdtkDefs {
    pub tilesets: Vec<LdtkTileset>,
}

/// One level of the map; each level becomes a room.
#[derive(Debug, Clone)]
pub struct LdtkLevel {
    pub layer_instances: Vec<LdtkLayerInstance>,
}

/// A layer of a level, holding tiles or entities.
#[derive(Debug, Clone)]
pub struct LdtkLayerInstance {
    pub typ: String,
    pub width: u32,
    pub height: u32,
    pub grid_tiles: Vec<LdtkTileInstance>,
    pub entity_instances: Vec<LdtkEntityInstance>,
}

/// A tile placed at pixel position `px`.
#[derive(Debug, Clone, Copy)]
pub struct LdtkTileInstance {
    pub px: [u32; 2],
    pub t: TileIndex,
}

/// An entity placed on a level.
#[derive(Debug, Clone)]
pub struct LdtkEntityInstance {
    pub identifier: String,
    pub grid: UVec2,
    pub iid: String,
    pub field_instances: Vec<LdtkEntityFieldInstance>,
}

/// A field of an entity.
#[derive(Debug, Clone)]
pub enum LdtkEntityFieldInstance {
    String { identifier: String, value: String },
    EntityRef { identifier: String, value: LdtkEntityRef },
}

/// A reference to another entity.
#[derive(Debug, Clone)]
pub struct LdtkEntityRef {
    pub entity_iid: String,
}

/// A tileset with its enum tags.
#[derive(Debug, Clone)]
pub struct LdtkTileset {
    pub enum_tags: Vec<LdtkEnumTag>,
}

/// The tiles tagged with one enum value.
#[derive(Debug, Clone)]
pub struct LdtkEnumTag {
    pub enum_value_id: String,
    pub tile_ids: Vec<TileIndex>,
}

// ---------------------------------------------------------------------------
// What a map converts to
// ---------------------------------------------------------------------------

/// A portal as placed in the map, naming its target entity.
#[derive(Debug, Clone)]
pub struct ParsedPortal {
    pub position: UVec2,
    pub entity_iid: String,
    pub target_entity_iid: String,
}

/// The view of a [`ParsedPortal`].
pub struct ParsedPortalView {
    pub position: UVec2,
    pub entity_iid: Seq<char>,
    pub target_entity_iid: Seq<char>,
}

impl View for ParsedPortal {
    type V = ParsedPortalView;

    open spec fn view(&self) -> ParsedPortalView {
        ParsedPortalView {
            position: self.position,
            entity_iid: self.entity_iid@,
            target_entity_iid: self.target_entity_iid@,
        }
    }
}

/// An entity that the game knows.
#[derive(Debug, Clone)]
pub enum ParsedEntity {
    MobSpawn(MobSpawn),
    Portal(ParsedPortal),
    PlayerStart(UVec2),
}

/// The view of a [`ParsedEntity`].
pub enum ParsedEntityView {
    MobSpawn(MobSpawnView),
    Portal(ParsedPortalView),
    PlayerStart(UVec2),
}

impl View for ParsedEntity {
    type V = ParsedEntityView;

    open spec fn view(&self) -> ParsedEntityView {
        match self {
            ParsedEntity::MobSpawn(m) => ParsedEntityView::MobSpawn(m@),
            ParsedEntity::Portal(p) => ParsedEntityView::Portal(p@),
            ParsedEntity::PlayerStart(pos) => ParsedEntityView::PlayerStart(*pos),
        }
    }
}

// ---------------------------------------------------------------------------
// Entities
// ---------------------------------------------------------------------------

/// The identifier of a field.
pub open spec fn field_identifier(f: LdtkEntityFieldInstance) -> Seq<char> {
    match f {
        LdtkEntityFieldInstance::String { identifier, .. } => identifier@,
        LdtkEntityFieldInstance::EntityRef { identifier, .. } => identifier@,
    }
}

/// Index of the first field from `from` on that has identifier `id`.
pub open spec fn first_field(fields: Seq<LdtkEntityFieldInstance>, id: Seq<char>, from: int) -> Option<int>
    decreases fields.len() - from,
{
    if from < 0 || from >= fields.len() {
        None
    } else if field_identifier(fields[from]) == id {
        Some(from)
    } else {
        first_field(fields, id, from + 1)
    }
}

impl LdtkEntityFieldInstance {
    /// Whether this field has identifier `id`.
    pub fn has_identifier(&self, id: &str) -> (b: bool)
        ensures
            b == (field_identifier(*self) == id@),
    {
        match self {
            LdtkEntityFieldInstance::String { identifier, .. } => str_eq(identifier.as_str(), id),
            LdtkEntityFieldInstance::EntityRef { identifier, .. } => str_eq(identifier.as_str(), id),
        }
    }
}

impl LdtkEntityInstance {
    /// The first field with the given identifier.
    pub fn field(&self, identifier: &str) -> (r: Option<&LdtkEntityFieldInstance>)
        ensures
            match first_field(self.field_instances@, identifier@, 0) {
                None => r is None,
                Some(i) => r is Some && *r.unwrap() == self.field_instances@[i],
            },
    {
        let mut i: usize = 0;
        while i < self.field_instances.len()
            invariant
                i <= self.field_instances.len(),
                first_field(self.field_instances@, identifier@, 0) == first_field(
                    self.field_instances@,
                    identifier@,
                    i as int,
                ),
            decreases self.field_instances.len() - i,
        {
            if self.field_instances[i].has_identifier(identifier) {
                return Some(&self.field_instances[i]);
            }
            i = i + 1;
        }
        None
    }
}

/// The entity that a placed entity stands for, if the game knows it.
pub open spec fn spec_collect_entity(e: LdtkEntityInstance) -> Option<ParsedEntityView> {
    if e.identifier@ == "Mob"@ {
        match first_field(e.field_instances@, "mob"@, 0) {
            Some(i) => match e.field_instances@[i] {
                LdtkEntityFieldInstance::String { value, .. } => Some(
                    ParsedEntityView::MobSpawn(MobSpawnView { position: e.grid, mob_template: value@ }),
                ),
                _ => None,
            },
            None => None,
        }
    } else if e.identifier@ == "Portal"@ {
        match first_field(e.field_instances@, "target"@, 0) {
            Some(i) => match e.field_instances@[i] {
                LdtkEntityFieldInstance::EntityRef { value, .. } => Some(
                    ParsedEntityView::Portal(
                        ParsedPortalView {
                            position: e.grid,
                            entity_iid: e.iid@,
                            target_entity_iid: value.entity_iid@,
                        },
                    ),
                ),
                _ => None,
            },
            None => None,
        }
    } else if e.identifier@ == "Player_Start"@ {
        Some(ParsedEntityView::PlayerStart(e.grid))
    } else {
        None
    }
}

/// Converts one placed entity.
pub fn collect_entity(entity: &LdtkEntityInstance) -> (r: Option<ParsedEntity>)
    ensures
        match spec_collect_entity(*entity) {
            None => r is None,
            Some(v) => r is Some && r.unwrap()@ == v,
        },
{
    if str_eq(entity.identifier.as_str(), "Mob") {
        match entity.field("mob") {
            Some(LdtkEntityFieldInstance::String { value, .. }) => Some(
                ParsedEntity::MobSpawn(MobSpawn { position: entity.grid, mob_template: value.clone() }),
            ),
            _ => None,
        }
    } else if str_eq(entity.identifier.as_str(), "Portal") {
        match entity.field("target") {
            Some(LdtkEntityFieldInstance::EntityRef { value, .. }) => Some(
                ParsedEntity::Portal(
                    ParsedPortal {
                        position: entity.grid,
                        entity_iid: entity.iid.clone(),
                        target_entity_iid: value.entity_iid.clone(),
                    },
                ),
            ),
            _ => None,
        }
    } else if str_eq(entity.identifier.as_str(), "Player_Start") {
        Some(ParsedEntity::PlayerStart(entity.grid))
    } else {
        None
    }
}

/// The known entities among `es`, in order.
pub open spec fn spec_collect_entities(es: Seq<LdtkEntityInstance>) -> Seq<ParsedEntityView>
    decreases es.len(),
{
    if es.len() == 0 {
        Seq::empty()
    } else {
        let prev = spec_collect_entities(es.drop_last());
        match spec_collect_entity(es.last()) {
            Some(v) => prev.push(v),
            None => prev,
        }
    }
}

/// Converts the placed entities that the game knows, keeping their order.
pub fn collect_entities(entities: &[LdtkEntityInstance]) -> (r: Vec<ParsedEntity>)
    ensures
        r@.map_values(|e: ParsedEntity| e@) == spec_collect_entities(entities@),
{
    let mut r: Vec<ParsedEntity> = Vec::new();
    let mut i: usize = 0;
    while i < entities.len()
        invariant
            i <= entities.len(),
            r@.map_values(|e: ParsedEntity| e@) == spec_collect_entities(entities@.take(i as int)),
        decreases entities.len() - i,
    {
        let ghost before = r@;
        assert(entities@.take(i + 1).drop_last() =~= entities@.take(i as int));
        if let Some(e) = collect_entity(&entities[i]) {
            r.push(e);
            assert(r@.map_values(|e: ParsedEntity| e@) =~= before.map_values(|e: ParsedEntity| e@).push(e@));
        }
        i = i + 1;
    }
    assert(entities@.take(entities.len() as int) =~= entities@);
    r
}

// ---------------------------------------------------------------------------
// Enum tags
// ---------------------------------------------------------------------------

/// Why a map cannot be converted.
#[derive(Debug, Clone)]
pub enum MapError {
    /// The map defines no tileset.
    NoTileset,
    /// A tile of a layer is not placed on the map's grid.
    TileNotOnGrid,
    /// The target of the portal with this entity id does not exist.
    PortalTargetNotFound(String),
    /// No level holds a player start.
    NoPlayerStart,
    /// More than one player start is placed.
    MultiplePlayerStarts,
}

/// The view of a [`MapError`].
pub enum MapErrorView {
    NoTileset,
    TileNotOnGrid,
    PortalTargetNotFound(Seq<char>),
    NoPlayerStart,
    MultiplePlayerStarts,
}

impl View for MapError {
    type V = MapErrorView;

    open spec fn view(&self) -> MapErrorView {
        match self {
            MapError::NoTileset => MapErrorView::NoTileset,
            MapError::TileNotOnGrid => MapErrorView::TileNotOnGrid,
            MapError::PortalTargetNotFound(iid) => MapErrorView::PortalTargetNotFound(iid@),
            MapError::NoPlayerStart => MapErrorView::NoPlayerStart,
            MapError::MultiplePlayerStarts => MapErrorView::MultiplePlayerStarts,
        }
    }
}

/// The message that describes an error.
pub open spec fn spec_message(e: MapErrorView) -> Seq<char> {
    match e {
        MapErrorView::NoTileset => "No first tileset"@,
        MapErrorView::TileNotOnGrid => "Tile position is not a multiple of the default grid size"@,
        MapErrorView::PortalTargetNotFound(iid) => "Portal target not found: "@ + iid,
        MapErrorView::NoPlayerStart => "No player start found"@,
        MapErrorView::MultiplePlayerStarts => "Multiple player starts found"@,
    }
}

impl MapError {
    /// A message describing the error.
    pub fn message(&self) -> (r: String)
        ensures
            r@ == spec_message(self@),
    {
        match self {
            MapError::NoTileset => String::from_str("No first tileset"),
            MapError::TileNotOnGrid => String::from_str(
                "Tile position is not a multiple of the default grid size",
            ),
            MapError::PortalTargetNotFound(iid) => String::from_str("Portal target not found: ").concat(
                iid.as_str(),
            ),
            MapError::NoPlayerStart => String::from_str("No player start found"),
            MapError::MultiplePlayerStarts => String::from_str("Multiple player starts found"),
        }
    }
}

/// Index of the first tag from `from` on with the given enum value.
pub open spec fn first_tag(tags: Seq<LdtkEnumTag>, value: Seq<char>, from: int) -> Option<int>
    decreases tags.len() - from,
{
    if from < 0 || from >= tags.len() {
        None
    } else if tags[from].enum_value_id@ == value {
        Some(from)
    } else {
        first_tag(tags, value, from + 1)
    }
}

/// The tiles that the first tileset tags with `value` (none if no tag has it).
pub open spec fn spec_tagged_tiles(tileset: LdtkTileset, value: Seq<char>) -> Seq<TileIndex> {
    match first_tag(tileset.enum_tags@, value, 0) {
        Some(i) => tileset.enum_tags@[i].tile_ids@,
        None => Seq::empty(),
    }
}

/// The tiles of the first tileset tagged with `enum_value`; an error if the
/// map has no tileset.
pub fn collect_enum_tile_ids(ldtk_map: &LdtkMap, enum_value: &str) -> (r: Result<Vec<TileIndex>, MapError>)
    ensures
        ldtk_map.defs.tilesets@.len() == 0 ==> r matches Err(MapError::NoTileset),
        ldtk_map.defs.tilesets@.len() > 0 ==> r is Ok && r.unwrap()@ == spec_tagged_tiles(
            ldtk_map.defs.tilesets@[0],
            enum_value@,
        ),
{
    if ldtk_map.defs.tilesets.len() == 0 {
        return Err(MapError::NoTileset);
    }
    let tileset = &ldtk_map.defs.tilesets[0];
    let mut i: usize = 0;
    while i < tileset.enum_tags.len()
        invariant
            ldtk_map.defs.tilesets@.len() > 0,
            *tileset == ldtk_map.defs.tilesets@[0],
            i <= tileset.enum_tags.len(),
            first_tag(tileset.enum_tags@, enum_value@, 0) == first_tag(
                tileset.enum_tags@,
                enum_value@,
                i as int,
            ),
        decreases tileset.enum_tags.len() - i,
    {
        if str_eq(tileset.enum_tags[i].enum_value_id.as_str(), enum_value) {
            let ids = tileset.enum_tags[i].tile_ids.clone();
            assert(ids@ =~= tileset.enum_tags@[i as int].tile_ids@);
            return Ok(ids);
        }
        i = i + 1;
    }
    Ok(Vec::new())
}

/// Whether `tiles` holds `t`.
pub fn contains_tile(tiles: &Vec<TileIndex>, t: TileIndex) -> (b: bool)
    ensures
        b == tiles@.contains(t),
{
    let mut i: usize = 0;
    while i < tiles.len()
        invariant
            i <= tiles.len(),
            forall|k: int| 0 <= k < i ==> tiles@[k] != t,
        decreases tiles.len() - i,
    {
        if tiles[i] == t {
            assert(tiles@[i as int] == t);
            return true;
        }
        i = i + 1;
    }
    false
}

// ---------------------------------------------------------------------------
// Tile layers
// ---------------------------------------------------------------------------

/// The grid cell of a tile.
pub open spec fn tile_position(t: LdtkTileInstance, grid_size: u32) -> UVec2 {
    UVec2 { x: (t.px[0] / grid_size) as u32, y: (t.px[1] / grid_size) as u32 }
}

/// Whether a tile's pixel position is a multiple of the grid size.
pub open spec fn tile_on_grid(t: LdtkTileInstance, grid_size: u32) -> bool {
    t.px[0] % grid_size == 0 && t.px[1] % grid_size == 0
}

/// Whether two tiles are placed at the same pixel position.
pub open spec fn same_px(a: LdtkTileInstance, b: LdtkTileInstance) -> bool {
    a.px[0] == b.px[0] && a.px[1] == b.px[1]
}

/// Whether two tiles of `tiles` are placed at the same position.
pub open spec fn has_duplicate_positions(tiles: Seq<LdtkTileInstance>) -> bool {
    exists|i: int, j: int| 0 <= i < j < tiles.len() && #[trigger] same_px(tiles[i], tiles[j])
}

/// The height of a foreground tile: tiles tagged `Foreground_h2` stand two
/// tiles high, those tagged `Foreground_h1` one; other tiles are background.
pub open spec fn fg_height(h1: Seq<TileIndex>, h2: Seq<TileIndex>, t: TileIndex) -> Option<u32> {
    if h2.contains(t) {
        Some(2)
    } else if h1.contains(t) {
        Some(1)
    } else {
        None
    }
}

/// A tile tagged only `Foreground_h2` stands two tiles high, one tagged only
/// `Foreground_h1` one tile high, and an untagged tile is background.
pub proof fn law_foreground_heights(h1: Seq<TileIndex>, h2: Seq<TileIndex>, t: TileIndex)
    ensures
        h2.contains(t) && !h1.contains(t) ==> fg_height(h1, h2, t) == Some(2u32),
        h1.contains(t) && !h2.contains(t) ==> fg_height(h1, h2, t) == Some(1u32),
        !h1.contains(t) && !h2.contains(t) ==> fg_height(h1, h2, t) is None,
        fg_height(h1, h2, t) is Some ==> h1.contains(t) || h2.contains(t),
{
}

/// Whether a layer holds a foreground tile.
pub open spec fn has_foreground_tiles(
    tiles: Seq<LdtkTileInstance>,
    h1: Seq<TileIndex>,
    h2: Seq<TileIndex>,
) -> bool {
    exists|i: int| 0 <= i < tiles.len() && (#[trigger] fg_height(h1, h2, tiles[i].t)) is Some
}

/// The height of a foreground tile, or `None` for a background tile.
pub fn foreground_height(h1: &Vec<TileIndex>, h2: &Vec<TileIndex>, t: TileIndex) -> (r: Option<u32>)
    ensures
        r == fg_height(h1@, h2@, t),
{
    if contains_tile(h2, t) {
        Some(2)
    } else if contains_tile(h1, t) {
        Some(1)
    } else {
        None
    }
}

/// Whether two tiles of the layer share a position.
pub fn layer_has_duplicate_positions(tiles: &Vec<LdtkTileInstance>) -> (b: bool)
    ensures
        b == has_duplicate_positions(tiles@),
{
    let mut j: usize = 0;
    while j < tiles.len()
        invariant
            j <= tiles.len(),
            forall|a: int, b: int| 0 <= a < b < j ==> !#[trigger] same_px(tiles@[a], tiles@[b]),
        decreases tiles.len() - j,
    {
        let mut i: usize = 0;
        while i < j
            invariant
                i <= j < tiles.len(),
                forall|a: int, b: int| 0 <= a < b < j ==> !#[trigger] same_px(tiles@[a], tiles@[b]),
                forall|a: int| 0 <= a < i ==> !#[trigger] same_px(tiles@[a], tiles@[j as int]),
            decreases j - i,
        {
            if tiles[i].px[0] == tiles[j].px[0] && tiles[i].px[1] == tiles[j].px[1] {
                assert(same_px(tiles@[i as int], tiles@[j as int]));
                return true;
            }
            i = i + 1;
        }
        j = j + 1;
    }
    false
}

/// Whether the layer holds a foreground tile.
pub fn layer_has_foreground_tiles(
    tiles: &Vec<LdtkTileInstance>,
    h1: &Vec<TileIndex>,
    h2: &Vec<TileIndex>,
) -> (b: bool)
    ensures
        b == has_foreground_tiles(tiles@, h1@, h2@),
{
    let mut i: usize = 0;
    while i < tiles.len()
        invariant
            i <= tiles.len(),
            forall|k: int| 0 <= k < i ==> (#[trigger] fg_height(h1@, h2@, tiles@[k].t)) is None,
        decreases tiles.len() - i,
    {
        if foreground_height(h1, h2, tiles[i].t).is_some() {
            assert(fg_height(h1@, h2@, tiles@[i as int].t) is Some);
            return true;
        }
        i = i + 1;
    }
    false
}

/// Whether every tile of the layer is placed on the grid.
pub fn layer_on_grid(tiles: &Vec<LdtkTileInstance>, grid_size: u32) -> (b: bool)
    requires
        grid_size > 0,
    ensures
        b == forall|k: int| 0 <= k < tiles@.len() ==> #[trigger] tile_on_grid(tiles@[k], grid_size),
{
    let mut i: usize = 0;
    while i < tiles.len()
        invariant
            grid_size > 0,
            i <= tiles.len(),
            forall|k: int| 0 <= k < i ==> #[trigger] tile_on_grid(tiles@[k], grid_size),
        decreases tiles.len() - i,
    {
        if tiles[i].px[0] % grid_size != 0 || tiles[i].px[1] % grid_size != 0 {
            assert(!tile_on_grid(tiles@[i as int], grid_size));
            return false;
        }
        i = i + 1;
    }
    true
}

/// Every tile of the layer lands in one of the layer's cells.
pub open spec fn slots_within(tiles: Seq<LdtkTileInstance>, width: u32, height: u32, grid_size: u32) -> bool {
    forall|k: int| 0 <= k < tiles.len() ==> slot(tile_position(#[trigger] tiles[k], grid_size), width) < width * height
}

/// Slot of a cell in a row-major grid `width` cells wide.
pub open spec fn slot(p: UVec2, width: u32) -> int {
    p.y * width + p.x
}

pub proof fn lemma_slot_bound(p: UVec2, w: u32, h: u32)
    by (nonlinear_arith)
    requires
        p.x < w,
        p.y < h,
    ensures
        0 <= slot(p, w) < w * h,
{
}

/// A dense layer: cell `slot(p)` holds the last tile placed at `p`, other
/// cells are empty.
pub open spec fn spec_dense_layer(
    tiles: Seq<LdtkTileInstance>,
    width: u32,
    height: u32,
    grid_size: u32,
) -> Seq<TileIndex>
    decreases tiles.len(),
{
    if tiles.len() == 0 {
        Seq::new((width * height) as nat, |_k: int| TileIndex(0))
    } else {
        spec_dense_layer(tiles.drop_last(), width, height, grid_size).update(
            slot(tile_position(tiles.last(), grid_size), width),
            tiles.last().t,
        )
    }
}

/// Converts a layer without shared positions or foreground tiles into a
/// dense grid of tiles.
pub fn convert_dense_layer(layer: &LdtkLayerInstance, grid_size: u32) -> (r: Vec<TileIndex>)
    requires
        grid_size > 0,
        layer.width * layer.height <= u32::MAX,
        slots_within(layer.grid_tiles@, layer.width, layer.height, grid_size),
    ensures
        r@ == spec_dense_layer(layer.grid_tiles@, layer.width, layer.height, grid_size),
        r@.len() == layer.width * layer.height,
{
    let n = layer.width * layer.height;
    let mut tiles: Vec<TileIndex> = Vec::new();
    let mut k: u32 = 0;
    while k < n
        invariant
            k <= n,
            tiles@ == Seq::new(k as nat, |_k: int| TileIndex(0)),
        decreases n - k,
    {
        tiles.push(TileIndex::empty());
        assert(tiles@ =~= Seq::new((k + 1) as nat, |_k: int| TileIndex(0)));
        k = k + 1;
    }
    assert(layer.grid_tiles@.take(0) =~= Seq::<LdtkTileInstance>::empty());
    let mut i: usize = 0;
    while i < layer.grid_tiles.len()
        invariant
            grid_size > 0,
            n == layer.width * layer.height,
            slots_within(layer.grid_tiles@, layer.width, layer.height, grid_size),
            i <= layer.grid_tiles.len(),
            tiles@ == spec_dense_layer(layer.grid_tiles@.take(i as int), layer.width, layer.height, grid_size),
            tiles@.len() == n,
        decreases layer.grid_tiles.len() - i,
    {
        let tile = layer.grid_tiles[i];
        let x = tile.px[0] / grid_size;
        let y = tile.px[1] / grid_size;
        assert(layer.grid_tiles@[i as int] == tile);
        assert(slot(tile_position(tile, grid_size), layer.width) < n);
        let idx = y * layer.width + x;
        tiles.set(idx as usize, tile.t);
        assert(layer.grid_tiles@.take(i + 1).drop_last() =~= layer.grid_tiles@.take(i as int));
        i = i + 1;
    }
    assert(layer.grid_tiles@.take(layer.grid_tiles.len() as int) =~= layer.grid_tiles@);
    tiles
}

/// The background tiles of a sparse layer, with their cells, in order.
pub open spec fn spec_sparse_bg(
    tiles: Seq<LdtkTileInstance>,
    grid_size: u32,
    h1: Seq<TileIndex>,
    h2: Seq<TileIndex>,
) -> Seq<(UVec2, TileIndex)>
    decreases tiles.len(),
{
    if tiles.len() == 0 {
        Seq::empty()
    } else {
        let prev = spec_sparse_bg(tiles.drop_last(), grid_size, h1, h2);
        if fg_height(h1, h2, tiles.last().t) is None {
            prev.push((tile_position(tiles.last(), grid_size), tiles.last().t))
        } else {
            prev
        }
    }
}

/// The foreground tiles of a sparse layer, in order.
pub open spec fn spec_sparse_fg(
    tiles: Seq<LdtkTileInstance>,
    grid_size: u32,
    h1: Seq<TileIndex>,
    h2: Seq<TileIndex>,
) -> Seq<ForegroundTile>
    decreases tiles.len(),
{
    if tiles.len() == 0 {
        Seq::empty()
    } else {
        let prev = spec_sparse_fg(tiles.drop_last(), grid_size, h1, h2);
        match fg_height(h1, h2, tiles.last().t) {
            Some(height) => prev.push(
                ForegroundTile {
                    position: tile_position(tiles.last(), grid_size),
                    height,
                    tile_index: tiles.last().t,
                },
            ),
            None => prev,
        }
    }
}

/// Splits a layer into background tiles and foreground tiles.
pub fn convert_sparse_layer(
    layer: &LdtkLayerInstance,
    grid_size: u32,
    h1: &Vec<TileIndex>,
    h2: &Vec<TileIndex>,
) -> (r: (Vec<(UVec2, TileIndex)>, Vec<ForegroundTile>))
    requires
        grid_size > 0,
    ensures
        r.0@ == spec_sparse_bg(layer.grid_tiles@, grid_size, h1@, h2@),
        r.1@ == spec_sparse_fg(layer.grid_tiles@, grid_size, h1@, h2@),
{
    let mut bg: Vec<(UVec2, TileIndex)> = Vec::new();
    let mut fg: Vec<ForegroundTile> = Vec::new();
    let mut i: usize = 0;
    while i < layer.grid_tiles.len()
        invariant
            grid_size > 0,
            i <= layer.grid_tiles.len(),
            bg@ == spec_sparse_bg(layer.grid_tiles@.take(i as int), grid_size, h1@, h2@),
            fg@ == spec_sparse_fg(layer.grid_tiles@.take(i as int), grid_size, h1@, h2@),
        decreases layer.grid_tiles.len() - i,
    {
        let tile = layer.grid_tiles[i];
        assert(layer.grid_tiles@[i as int] == tile);
        assert(layer.grid_tiles@.take(i + 1).drop_last() =~= layer.grid_tiles@.take(i as int));
        let position = UVec2 { x: tile.px[0] / grid_size, y: tile.px[1] / grid_size };
        match foreground_height(h1, h2, tile.t) {
            Some(height) => {
                fg.push(ForegroundTile { position, height, tile_index: tile.t });
            },
            None => {
                bg.push((position, tile.t));
            },
        }
        i = i + 1;
    }
    assert(layer.grid_tiles@.take(layer.grid_tiles.len() as int) =~= layer.grid_tiles@);
    (bg, fg)
}

// ---------------------------------------------------------------------------
// Collisions
// ---------------------------------------------------------------------------

/// Some dense layer among the first `nl` holds a blocked tile in cell `k`.
pub open spec fn hit_dense(dense: Seq<Seq<TileIndex>>, blocked: Seq<TileIndex>, nl: int, k: int) -> bool {
    exists|l: int| 0 <= l < nl && k < dense[l].len() && blocked.contains(#[trigger] dense[l][k])
}

/// Some background tile among the first `n` is blocked and lies in cell `k`.
pub open spec fn hit_bg(bg: Seq<(UVec2, TileIndex)>, width: u32, blocked: Seq<TileIndex>, n: int, k: int) -> bool {
    exists|i: int| 0 <= i < n && slot((#[trigger] bg[i]).0, width) == k && blocked.contains(bg[i].1)
}

/// Some foreground tile among the first `n` is blocked and lies in cell `k`.
pub open spec fn hit_fg(fg: Seq<ForegroundTile>, width: u32, blocked: Seq<TileIndex>, n: int, k: int) -> bool {
    exists|i: int|
        0 <= i < n && slot((#[trigger] fg[i]).position, width) == k && blocked.contains(
            fg[i].tile_index,
        )
}

/// The collision grid: a cell is blocked when any layer holds a blocked
/// tile there.
pub open spec fn spec_collisions(
    size: UVec2,
    dense: Seq<Seq<TileIndex>>,
    bg: Seq<(UVec2, TileIndex)>,
    fg: Seq<ForegroundTile>,
    blocked: Seq<TileIndex>,
) -> Seq<bool> {
    Seq::new(
        (size.x * size.y) as nat,
        |k: int|
            hit_dense(dense, blocked, dense.len() as int, k) || hit_bg(bg, size.x, blocked, bg.len() as int, k)
                || hit_fg(fg, size.x, blocked, fg.len() as int, k),
    )
}

/// Computes which cells of a room are blocked.
pub fn collect_collisions(
    size: UVec2,
    dense_layers: &Vec<Vec<TileIndex>>,
    bg_sparse_layer: &Vec<(UVec2, TileIndex)>,
    fg_sparse_layer: &Vec<ForegroundTile>,
    blocked_tile_ids: &Vec<TileIndex>,
) -> (r: Vec<bool>)
    requires
        size.x * size.y <= u32::MAX,
        forall|l: int| 0 <= l < dense_layers@.len() ==> (#[trigger] dense_layers@[l])@.len() <= size.x * size.y,
        forall|i: int|
            0 <= i < bg_sparse_layer@.len() && blocked_tile_ids@.contains(bg_sparse_layer@[i].1) ==> slot(
                (#[trigger] bg_sparse_layer@[i]).0,
                size.x,
            ) < size.x * size.y,
        forall|i: int|
            0 <= i < fg_sparse_layer@.len() && blocked_tile_ids@.contains(fg_sparse_layer@[i].tile_index) ==> slot(
                (#[trigger] fg_sparse_layer@[i]).position,
                size.x,
            ) < size.x * size.y,
    ensures
        r@ == spec_collisions(
            size,
            dense_layers@.map_values(|l: Vec<TileIndex>| l@),
            bg_sparse_layer@,
            fg_sparse_layer@,
            blocked_tile_ids@,
        ),
{
    let ghost dense = dense_layers@.map_values(|l: Vec<TileIndex>| l@);
    let ghost bg = bg_sparse_layer@;
    let ghost fg = fg_sparse_layer@;
    let ghost blocked = blocked_tile_ids@;
    let n = size.x * size.y;
    let mut collisions: Vec<bool> = Vec::new();
    let mut k: u32 = 0;
    while k < n
        invariant
            k <= n,
            collisions@ == Seq::new(k as nat, |_k: int| false),
        decreases n - k,
    {
        collisions.push(false);
        assert(collisions@ =~= Seq::new((k + 1) as nat, |_k: int| false));
        k = k + 1;
    }
    let mut l: usize = 0;
    while l < dense_layers.len()
        invariant
            n == size.x * size.y,
            dense == dense_layers@.map_values(|l: Vec<TileIndex>| l@),
            blocked == blocked_tile_ids@,
            forall|l: int| 0 <= l < dense_layers@.len() ==> (#[trigger] dense_layers@[l])@.len() <= size.x * size.y,
            l <= dense_layers.len(),
            collisions@.len() == n,
            forall|k: int| 0 <= k < n ==> collisions@[k] == hit_dense(dense, blocked, l as int, k),
        decreases dense_layers.len() - l,
    {
        let layer = &dense_layers[l];
        assert(dense[l as int] == layer@);
        let mut i: usize = 0;
        while i < layer.len()
            invariant
                n == size.x * size.y,
                dense == dense_layers@.map_values(|l: Vec<TileIndex>| l@),
                blocked == blocked_tile_ids@,
                l < dense_layers.len(),
                *layer == dense_layers@[l as int],
                dense[l as int] == layer@,
                layer@.len() <= n,
                i <= layer.len(),
                collisions@.len() == n,
                forall|k: int|
                    0 <= k < n ==> collisions@[k] == (hit_dense(dense, blocked, l as int, k) || (k < i
                        && blocked.contains(layer@[k]))),
            decreases layer.len() - i,
        {
            if contains_tile(blocked_tile_ids, layer[i]) {
                collisions.set(i, true);
            }
            i = i + 1;
        }
        assert forall|k: int| 0 <= k < n implies collisions@[k] == hit_dense(dense, blocked, l + 1, k) by {
            if k < layer@.len() && blocked.contains(layer@[k]) {
                assert(dense[l as int][k] == layer@[k]);
            }
            if hit_dense(dense, blocked, l + 1, k) {
                let w = choose|w: int| 0 <= w < l + 1 && k < dense[w].len() && blocked.contains(#[trigger] dense[w][k]);
                if w < l {
                    assert(hit_dense(dense, blocked, l as int, k));
                }
            }
        }
        l = l + 1;
    }
    let mut i: usize = 0;
    while i < bg_sparse_layer.len()
        invariant
            n == size.x * size.y,
            n <= u32::MAX,
            dense == dense_layers@.map_values(|l: Vec<TileIndex>| l@),
            bg == bg_sparse_layer@,
            blocked == blocked_tile_ids@,
            forall|i: int|
                0 <= i < bg_sparse_layer@.len() && blocked_tile_ids@.contains(bg_sparse_layer@[i].1) ==> slot(
                    (#[trigger] bg_sparse_layer@[i]).0,
                    size.x,
                ) < n,
            i <= bg_sparse_layer.len(),
            collisions@.len() == n,
            forall|k: int|
                0 <= k < n ==> collisions@[k] == (hit_dense(dense, blocked, dense.len() as int, k)
                    || hit_bg(bg, size.x, blocked, i as int, k)),
        decreases bg_sparse_layer.len() - i,
    {
        let (position, tile) = bg_sparse_layer[i];
        assert(bg[i as int] == (position, tile));
        let hit = contains_tile(blocked_tile_ids, tile);
        if hit {
            assert(slot(position, size.x) < n);
            let idx = position.y * size.x + position.x;
            collisions.set(idx as usize, true);
        }
        assert forall|k: int| 0 <= k < n implies collisions@[k] == (hit_dense(dense, blocked, dense.len() as int, k)
            || hit_bg(bg, size.x, blocked, i + 1, k)) by {
            if hit_bg(bg, size.x, blocked, i + 1, k) {
                let w = choose|w: int| 0 <= w < i + 1 && slot((#[trigger] bg[w]).0, size.x) == k && blocked.contains(bg[w].1);
                if w < i {
                    assert(hit_bg(bg, size.x, blocked, i as int, k));
                }
            }
            if hit && k == slot(position, size.x) {
                assert(slot(bg[i as int].0, size.x) == k);
            }
            if hit_bg(bg, size.x, blocked, i as int, k) {
                let w = choose|w: int| 0 <= w < i && slot((#[trigger] bg[w]).0, size.x) == k && blocked.contains(bg[w].1);
                assert(slot(bg[w].0, size.x) == k);
            }
        }
        i = i + 1;
    }
    let mut i: usize = 0;
    while i < fg_sparse_layer.len()
        invariant
            n == size.x * size.y,
            n <= u32::MAX,
            dense == dense_layers@.map_values(|l: Vec<TileIndex>| l@),
            bg == bg_sparse_layer@,
            fg == fg_sparse_layer@,
            blocked == blocked_tile_ids@,
            forall|i: int|
                0 <= i < fg_sparse_layer@.len() && blocked_tile_ids@.contains(fg_sparse_layer@[i].tile_index) ==> slot(
                    (#[trigger] fg_sparse_layer@[i]).position,
                    size.x,
                ) < n,
            i <= fg_sparse_layer.len(),
            collisions@.len() == n,
            forall|k: int|
                0 <= k < n ==> collisions@[k] == (hit_dense(dense, blocked, dense.len() as int, k)
                    || hit_bg(bg, size.x, blocked, bg.len() as int, k) || hit_fg(fg, size.x, blocked, i as int, k)),
        decreases fg_sparse_layer.len() - i,
    {
        let tile = fg_sparse_layer[i];
        assert(fg[i as int] == tile);
        let hit = contains_tile(blocked_tile_ids, tile.tile_index);
        if hit {
            assert(slot(tile.position, size.x) < n);
            let idx = tile.position.y * size.x + tile.position.x;
            collisions.set(idx as usize, true);
        }
        assert forall|k: int| 0 <= k < n implies collisions@[k] == (hit_dense(dense, blocked, dense.len() as int, k)
            || hit_bg(bg, size.x, blocked, bg.len() as int, k) || hit_fg(fg, size.x, blocked, i + 1, k)) by {
            if hit_fg(fg, size.x, blocked, i + 1, k) {
                let w = choose|w: int| 0 <= w < i + 1 && slot((#[trigger] fg[w]).position, size.x) == k && blocked.contains(fg[w].tile_index);
                if w < i {
                    assert(hit_fg(fg, size.x, blocked, i as int, k));
                }
            }
            if hit && k == slot(tile.position, size.x) {
                assert(slot(fg[i as int].position, size.x) == k);
            }
            if hit_fg(fg, size.x, blocked, i as int, k) {
                let w = choose|w: int| 0 <= w < i && slot((#[trigger] fg[w]).position, size.x) == k && blocked.contains(fg[w].tile_index);
                assert(slot(fg[w].position, size.x) == k);
            }
        }
        i = i + 1;
    }
    assert(collisions@ =~= spec_collisions(size, dense, bg, fg, blocked));
    collisions
}

// ---------------------------------------------------------------------------
// Levels
// ---------------------------------------------------------------------------

/// The views of a list of mob spawns.
pub open spec fn mob_views(s: Seq<MobSpawn>) -> Seq<MobSpawnView> {
    s.map_values(|m: MobSpawn| m@)
}

/// The views of a list of placed portals.
pub open spec fn portal_views(s: Seq<ParsedPortal>) -> Seq<ParsedPortalView> {
    s.map_values(|p: ParsedPortal| p@)
}

/// The views of a list of tile layers.
pub open spec fn layer_views(s: Seq<Vec<TileIndex>>) -> Seq<Seq<TileIndex>> {
    s.map_values(|l: Vec<TileIndex>| l@)
}

/// The mob spawns among `ents`, in order.
pub open spec fn mobs_of(ents: Seq<ParsedEntityView>) -> Seq<MobSpawnView>
    decreases ents.len(),
{
    if ents.len() == 0 {
        Seq::empty()
    } else {
        match ents.last() {
            ParsedEntityView::MobSpawn(m) => mobs_of(ents.drop_last()).push(m),
            _ => mobs_of(ents.drop_last()),
        }
    }
}

/// The portals among `ents`, in order.
pub open spec fn portals_of(ents: Seq<ParsedEntityView>) -> Seq<ParsedPortalView>
    decreases ents.len(),
{
    if ents.len() == 0 {
        Seq::empty()
    } else {
        match ents.last() {
            ParsedEntityView::Portal(p) => portals_of(ents.drop_last()).push(p),
            _ => portals_of(ents.drop_last()),
        }
    }
}

/// The player starts among `ents`, in order.
pub open spec fn starts_of(ents: Seq<ParsedEntityView>) -> Seq<UVec2>
    decreases ents.len(),
{
    if ents.len() == 0 {
        Seq::empty()
    } else {
        match ents.last() {
            ParsedEntityView::PlayerStart(p) => starts_of(ents.drop_last()).push(p),
            _ => starts_of(ents.drop_last()),
        }
    }
}

/// Appends the mob spawns, portals and player starts of `ents`, in order,
/// to the three lists.
pub fn distribute_entities(
    ents: &Vec<ParsedEntity>,
    mob_spawns: &mut Vec<MobSpawn>,
    portals: &mut Vec<ParsedPortal>,
    player_starts: &mut Vec<UVec2>,
)
    ensures
        mob_views(final(mob_spawns)@) == mob_views(old(mob_spawns)@) + mobs_of(
            ents@.map_values(|e: ParsedEntity| e@),
        ),
        portal_views(final(portals)@) == portal_views(old(portals)@) + portals_of(
            ents@.map_values(|e: ParsedEntity| e@),
        ),
        final(player_starts)@ == old(player_starts)@ + starts_of(ents@.map_values(|e: ParsedEntity| e@)),
{
    let ghost views = ents@.map_values(|e: ParsedEntity| e@);
    let mut i: usize = 0;
    while i < ents.len()
        invariant
            views == ents@.map_values(|e: ParsedEntity| e@),
            i <= ents.len(),
            mob_views(mob_spawns@) == mob_views(old(mob_spawns)@) + mobs_of(views.take(i as int)),
            portal_views(portals@) == portal_views(old(portals)@) + portals_of(views.take(i as int)),
            player_starts@ == old(player_starts)@ + starts_of(views.take(i as int)),
        decreases ents.len() - i,
    {
        let ghost before_m = mob_spawns@;
        let ghost before_p = portals@;
        assert(views.take(i + 1).drop_last() =~= views.take(i as int));
        assert(views.take(i + 1).last() == ents@[i as int]@);
        match &ents[i] {
            ParsedEntity::MobSpawn(m) => {
                mob_spawns.push(MobSpawn { position: m.position, mob_template: m.mob_template.clone() });
                assert(mob_views(mob_spawns@) =~= mob_views(before_m).push(m@));
            },
            ParsedEntity::Portal(p) => {
                portals.push(
                    ParsedPortal {
                        position: p.position,
                        entity_iid: p.entity_iid.clone(),
                        target_entity_iid: p.target_entity_iid.clone(),
                    },
                );
                assert(portal_views(portals@) =~= portal_views(before_p).push(p@));
            },
            ParsedEntity::PlayerStart(pos) => {
                player_starts.push(*pos);
            },
        }
        i = i + 1;
    }
    assert(views.take(ents.len() as int) =~= views);
}

/// What the layers of a level add up to.
pub struct LevelView {
    pub size: UVec2,
    pub dense: Seq<Seq<TileIndex>>,
    pub bg: Seq<(UVec2, TileIndex)>,
    pub fg: Seq<ForegroundTile>,
    pub mob_spawns: Seq<MobSpawnView>,
    pub portals: Seq<ParsedPortalView>,
    pub player_starts: Seq<UVec2>,
}

/// The larger of two numbers.
pub open spec fn max_u32(a: u32, b: u32) -> u32 {
    if a >= b {
        a
    } else {
        b
    }
}

/// Every tile of the layer is placed on the grid.
pub open spec fn all_on_grid(tiles: Seq<LdtkTileInstance>, grid_size: u32) -> bool {
    forall|k: int| 0 <= k < tiles.len() ==> #[trigger] tile_on_grid(tiles[k], grid_size)
}

/// A layer passes the grid check: it holds no tile, or all its tiles are on
/// the grid.
pub open spec fn layer_passes(layer: LdtkLayerInstance, grid_size: u32) -> bool {
    layer.grid_tiles@.len() > 0 ==> all_on_grid(layer.grid_tiles@, grid_size)
}

/// A layer is stored sparsely when two of its tiles share a position or it
/// holds a foreground tile.
pub open spec fn is_sparse(layer: LdtkLayerInstance, h1: Seq<TileIndex>, h2: Seq<TileIndex>) -> bool {
    has_duplicate_positions(layer.grid_tiles@) || has_foreground_tiles(layer.grid_tiles@, h1, h2)
}

/// Adds the tiles of a layer to what the earlier layers gave.
pub open spec fn add_tiles(
    acc: LevelView,
    layer: LdtkLayerInstance,
    grid_size: u32,
    h1: Seq<TileIndex>,
    h2: Seq<TileIndex>,
) -> LevelView {
    if layer.grid_tiles@.len() == 0 {
        acc
    } else {
        let size = UVec2 { x: max_u32(acc.size.x, layer.width), y: max_u32(acc.size.y, layer.height) };
        if is_sparse(layer, h1, h2) {
            LevelView {
                size,
                dense: acc.dense,
                bg: acc.bg + spec_sparse_bg(layer.grid_tiles@, grid_size, h1, h2),
                fg: acc.fg + spec_sparse_fg(layer.grid_tiles@, grid_size, h1, h2),
                mob_spawns: acc.mob_spawns,
                portals: acc.portals,
                player_starts: acc.player_starts,
            }
        } else {
            LevelView {
                size,
                dense: acc.dense.push(spec_dense_layer(layer.grid_tiles@, layer.width, layer.height, grid_size)),
                bg: acc.bg,
                fg: acc.fg,
                mob_spawns: acc.mob_spawns,
                portals: acc.portals,
                player_starts: acc.player_starts,
            }
        }
    }
}

/// Adds the entities of a layer to what the earlier layers gave.
pub open spec fn add_entities(acc: LevelView, layer: LdtkLayerInstance) -> LevelView {
    let ents = spec_collect_entities(layer.entity_instances@);
    LevelView {
        size: acc.size,
        dense: acc.dense,
        bg: acc.bg,
        fg: acc.fg,
        mob_spawns: acc.mob_spawns + mobs_of(ents),
        portals: acc.portals + portals_of(ents),
        player_starts: acc.player_starts + starts_of(ents),
    }
}

/// What the layers of a level give, or `None` when a layer fails the grid
/// check.
pub open spec fn spec_level(
    layers: Seq<LdtkLayerInstance>,
    grid_size: u32,
    h1: Seq<TileIndex>,
    h2: Seq<TileIndex>,
) -> Option<LevelView>
    decreases layers.len(),
{
    if layers.len() == 0 {
        Some(
            LevelView {
                size: UVec2 { x: 0, y: 0 },
                dense: Seq::empty(),
                bg: Seq::empty(),
                fg: Seq::empty(),
                mob_spawns: Seq::empty(),
                portals: Seq::empty(),
                player_starts: Seq::empty(),
            },
        )
    } else {
        match spec_level(layers.drop_last(), grid_size, h1, h2) {
            None => None,
            Some(acc) => if layer_passes(layers.last(), grid_size) {
                Some(add_entities(add_tiles(acc, layers.last(), grid_size, h1, h2), layers.last()))
            } else {
                None
            },
        }
    }
}

/// The layers before the `n`-th all pass the grid check.
pub open spec fn layers_pass(layers: Seq<LdtkLayerInstance>, grid_size: u32, n: int) -> bool {
    forall|j: int| 0 <= j < n ==> #[trigger] layer_passes(layers[j], grid_size)
}

/// Converting the layer does not divide by zero, overflow or index out of
/// range: a grid size to divide by, and, if the layer passes the grid check
/// and is stored densely, a cell count that fits and every tile in a cell
/// of the layer.
pub open spec fn layer_fits(layer: LdtkLayerInstance, grid_size: u32, h1: Seq<TileIndex>, h2: Seq<TileIndex>) -> bool {
    layer.grid_tiles@.len() > 0 ==> {
        &&& grid_size > 0
        &&& all_on_grid(layer.grid_tiles@, grid_size) && !is_sparse(layer, h1, h2) ==> {
            &&& layer.width * layer.height <= u32::MAX
            &&& slots_within(layer.grid_tiles@, layer.width, layer.height, grid_size)
        }
    }
}

/// Every layer that the conversion reaches fits.
pub open spec fn layers_fit(layers: Seq<LdtkLayerInstance>, grid_size: u32, h1: Seq<TileIndex>, h2: Seq<TileIndex>) -> bool {
    forall|k: int|
        0 <= k < layers.len() && layers_pass(layers, grid_size, k) ==> #[trigger] layer_fits(layers[k], grid_size, h1, h2)
}

/// Computing the collisions of a level does not overflow or index out of
/// range: its cell count fits, and each blocked tile of its sparse layers
/// lands in one of its cells.
pub open spec fn blocked_within(acc: LevelView, blocked: Seq<TileIndex>) -> bool {
    &&& acc.size.x * acc.size.y <= u32::MAX
    &&& forall|i: int|
        0 <= i < acc.bg.len() && blocked.contains(acc.bg[i].1) ==> slot((#[trigger] acc.bg[i]).0, acc.size.x) < acc.size.x
            * acc.size.y
    &&& forall|i: int|
        0 <= i < acc.fg.len() && blocked.contains(acc.fg[i].tile_index) ==> slot(
            (#[trigger] acc.fg[i]).position,
            acc.size.x,
        ) < acc.size.x * acc.size.y
}

/// Converting the level does not divide by zero, overflow or index out of
/// range.
pub open spec fn level_fits(
    level: LdtkLevel,
    grid_size: u32,
    h1: Seq<TileIndex>,
    h2: Seq<TileIndex>,
    blocked: Seq<TileIndex>,
) -> bool {
    &&& layers_fit(level.layer_instances@, grid_size, h1, h2)
    &&& spec_level(level.layer_instances@, grid_size, h1, h2) matches Some(acc) ==> blocked_within(acc, blocked)
}

/// Converting the level of the map does not divide by zero, overflow or
/// index out of range, with the tags of the map's first tileset.
pub open spec fn level_fits_in(ldtk_map: LdtkMap, level: LdtkLevel) -> bool {
    ldtk_map.defs.tilesets@.len() > 0 ==> {
        let tileset = ldtk_map.defs.tilesets@[0];
        level_fits(
            level,
            ldtk_map.default_grid_size,
            spec_tagged_tiles(tileset, "Foreground_h1"@),
            spec_tagged_tiles(tileset, "Foreground_h2"@),
            spec_tagged_tiles(tileset, "Blocked"@),
        )
    }
}

proof fn lemma_mul_mono(a: u32, b: u32, c: u32, d: u32)
    by (nonlinear_arith)
    requires
        a <= c,
        b <= d,
    ensures
        a * b <= c * d,
{
}

/// A converted level, with its portals not yet resolved.
#[derive(Debug, Clone)]
pub struct ParsedMap {
    pub map: RoomMap,
    pub portals: Vec<ParsedPortal>,
    pub player_starts: Vec<UVec2>,
}

/// The view of a [`ParsedMap`].
pub struct ParsedMapView {
    pub map: RoomMapView,
    pub portals: Seq<ParsedPortalView>,
    pub player_starts: Seq<UVec2>,
}

impl View for ParsedMap {
    type V = ParsedMapView;

    open spec fn view(&self) -> ParsedMapView {
        ParsedMapView { map: self.map@, portals: portal_views(self.portals@), player_starts: self.player_starts@ }
    }
}

/// The result of converting a level.
pub open spec fn spec_convert_map(ldtk_map: LdtkMap, level: LdtkLevel) -> Result<ParsedMapView, MapErrorView> {
    if ldtk_map.defs.tilesets@.len() == 0 {
        Err(MapErrorView::NoTileset)
    } else {
        let tileset = ldtk_map.defs.tilesets@[0];
        let h1 = spec_tagged_tiles(tileset, "Foreground_h1"@);
        let h2 = spec_tagged_tiles(tileset, "Foreground_h2"@);
        let blocked = spec_tagged_tiles(tileset, "Blocked"@);
        match spec_level(level.layer_instances@, ldtk_map.default_grid_size, h1, h2) {
            None => Err(MapErrorView::TileNotOnGrid),
            Some(acc) => Ok(
                ParsedMapView {
                    map: RoomMapView {
                        size: acc.size,
                        bg_dense_layers: acc.dense,
                        bg_sparse_layer: acc.bg,
                        fg_sparse_layer: acc.fg,
                        collisions: spec_collisions(acc.size, acc.dense, acc.bg, acc.fg, blocked),
                        portals: Seq::empty(),
                        mob_spawns: acc.mob_spawns,
                    },
                    portals: acc.portals,
                    player_starts: acc.player_starts,
                },
            ),
        }
    }
}

/// `r` is the result that `v` describes.
pub open spec fn result_matches<T, V, E: View>(r: Result<T, E>, v: Result<V, E::V>, view: spec_fn(T) -> V) -> bool {
    match v {
        Ok(ok) => r is Ok && view(r->Ok_0) == ok,
        Err(err) => r is Err && r->Err_0@ == err,
    }
}

proof fn lemma_level_none_prefix(layers: Seq<LdtkLayerInstance>, n: int, g: u32, h1: Seq<TileIndex>, h2: Seq<TileIndex>)
    requires
        0 <= n <= layers.len(),
        spec_level(layers.take(n), g, h1, h2) is None,
    ensures
        spec_level(layers, g, h1, h2) is None,
    decreases layers.len() - n,
{
    if n < layers.len() {
        assert(layers.take(n + 1).drop_last() =~= layers.take(n));
        lemma_level_none_prefix(layers, n + 1, g, h1, h2);
    } else {
        assert(layers.take(n) =~= layers);
    }
}

/// The tiles and entities of a level, before its collisions are computed.
#[derive(Debug, Clone)]
pub struct LevelParts {
    pub size: UVec2,
    pub dense: Vec<Vec<TileIndex>>,
    pub bg: Vec<(UVec2, TileIndex)>,
    pub fg: Vec<ForegroundTile>,
    pub mob_spawns: Vec<MobSpawn>,
    pub portals: Vec<ParsedPortal>,
    pub player_starts: Vec<UVec2>,
}

impl View for LevelParts {
    type V = LevelView;

    open spec fn view(&self) -> LevelView {
        LevelView {
            size: self.size,
            dense: layer_views(self.dense@),
            bg: self.bg@,
            fg: self.fg@,
            mob_spawns: mob_views(self.mob_spawns@),
            portals: portal_views(self.portals@),
            player_starts: self.player_starts@,
        }
    }
}

/// Converts the layers of a level in order: the level's size, its dense and
/// sparse tile layers and its entities; `None` when the tiles of a layer
/// are not all on the grid.
pub fn convert_layers(
    layers: &Vec<LdtkLayerInstance>,
    grid_size: u32,
    h1: &Vec<TileIndex>,
    h2: &Vec<TileIndex>,
) -> (r: Option<LevelParts>)
    requires
        layers_fit(layers@, grid_size, h1@, h2@),
    ensures
        match spec_level(layers@, grid_size, h1@, h2@) {
            None => r is None,
            Some(acc) => r matches Some(p) && p@ == acc,
        },
        r matches Some(p) ==> forall|l: int|
            0 <= l < p.dense@.len() ==> (#[trigger] p.dense@[l])@.len() <= p.size.x * p.size.y,
{
    let ghost lv = layers@;

    let mut size = UVec2 { x: 0, y: 0 };
    let mut bg_dense_layers: Vec<Vec<TileIndex>> = Vec::new();
    let mut bg_sparse_layer: Vec<(UVec2, TileIndex)> = Vec::new();
    let mut fg_sparse_layer: Vec<ForegroundTile> = Vec::new();
    let mut mob_spawns: Vec<MobSpawn> = Vec::new();
    let mut portals: Vec<ParsedPortal> = Vec::new();
    let mut player_starts: Vec<UVec2> = Vec::new();

    assert(lv.take(0) =~= Seq::<LdtkLayerInstance>::empty());
    assert(layer_views(bg_dense_layers@) =~= Seq::empty());
    assert(mob_views(mob_spawns@) =~= Seq::empty());
    assert(portal_views(portals@) =~= Seq::empty());
    assert(bg_sparse_layer@ =~= Seq::empty());
    assert(fg_sparse_layer@ =~= Seq::empty());
    assert(player_starts@ =~= Seq::empty());
    let mut i: usize = 0;
    while i < layers.len()
        invariant
            lv == layers@,
            layers_fit(lv, grid_size, h1@, h2@),
            i <= layers.len(),
            layers_pass(lv, grid_size, i as int),
            spec_level(lv.take(i as int), grid_size, h1@, h2@) == Some(
                LevelView {
                    size,
                    dense: layer_views(bg_dense_layers@),
                    bg: bg_sparse_layer@,
                    fg: fg_sparse_layer@,
                    mob_spawns: mob_views(mob_spawns@),
                    portals: portal_views(portals@),
                    player_starts: player_starts@,
                },
            ),
            forall|l: int| 0 <= l < bg_dense_layers@.len() ==> (#[trigger] bg_dense_layers@[l])@.len() <= size.x * size.y,
        decreases layers.len() - i,
    {
        let layer = &layers[i];
        assert(lv.take(i + 1).drop_last() =~= lv.take(i as int));
        assert(lv.take(i + 1).last() == *layer);
        assert(layer_fits(lv[i as int], grid_size, h1@, h2@));
        let ghost old_size = size;
        let ghost old_dense = bg_dense_layers@;
                if layer.grid_tiles.len() > 0 {
            if !layer_on_grid(&layer.grid_tiles, grid_size) {
                proof {
                    assert(!layer_passes(lv[i as int], grid_size));
                    lemma_level_none_prefix(lv, i + 1, grid_size, h1@, h2@);
                }
                return None;
            }
            size = UVec2 {
                x: if size.x >= layer.width { size.x } else { layer.width },
                y: if size.y >= layer.height { size.y } else { layer.height },
            };
            proof {
                lemma_mul_mono(old_size.x, old_size.y, size.x, size.y);
            }
            if layer_has_duplicate_positions(&layer.grid_tiles) || layer_has_foreground_tiles(
                &layer.grid_tiles,
                h1,
                h2,
            ) {
                let (mut bg, mut fg) = convert_sparse_layer(layer, grid_size, h1, h2);
                bg_sparse_layer.append(&mut bg);
                fg_sparse_layer.append(&mut fg);
                assert(layer_views(bg_dense_layers@) == layer_views(old_dense));
            } else {
                let dense = convert_dense_layer(layer, grid_size);
                proof {
                    lemma_mul_mono(layer.width, layer.height, size.x, size.y);
                }
                bg_dense_layers.push(dense);
                assert(layer_views(bg_dense_layers@) =~= layer_views(old_dense).push(dense@));
            }
        }
        let ents = collect_entities(layer.entity_instances.as_slice());
        distribute_entities(&ents, &mut mob_spawns, &mut portals, &mut player_starts);
        i = i + 1;
    }
    assert(lv.take(lv.len() as int) =~= lv);
    Some(LevelParts { size, dense: bg_dense_layers, bg: bg_sparse_layer, fg: fg_sparse_layer, mob_spawns, portals, player_starts })
}

/// Converts one level into a room map, its placed portals and its player
/// starts.
pub fn convert_map(ldtk_map: &LdtkMap, ldtk_level: &LdtkLevel) -> (r: Result<ParsedMap, MapError>)
    requires
        level_fits_in(*ldtk_map, *ldtk_level),
    ensures
        result_matches(r, spec_convert_map(*ldtk_map, *ldtk_level), |m: ParsedMap| m@),
{
    let h1 = match collect_enum_tile_ids(ldtk_map, "Foreground_h1") {
        Ok(ids) => ids,
        Err(e) => {
            return Err(e);
        },
    };
    let h2 = match collect_enum_tile_ids(ldtk_map, "Foreground_h2") {
        Ok(ids) => ids,
        Err(e) => {
            return Err(e);
        },
    };
    let blocked_tile_ids = match collect_enum_tile_ids(ldtk_map, "Blocked") {
        Ok(ids) => ids,
        Err(e) => {
            return Err(e);
        },
    };
    match convert_layers(&ldtk_level.layer_instances, ldtk_map.default_grid_size, &h1, &h2) {
        None => Err(MapError::TileNotOnGrid),
        Some(parts) => {
            let collisions = collect_collisions(parts.size, &parts.dense, &parts.bg, &parts.fg, &blocked_tile_ids);
            let map = RoomMap {
                size: parts.size,
                bg_dense_layers: parts.dense,
                bg_sparse_layer: parts.bg,
                fg_sparse_layer: parts.fg,
                collisions,
                portals: Vec::new(),
                mob_spawns: parts.mob_spawns,
            };
            let r = ParsedMap { map, portals: parts.portals, player_starts: parts.player_starts };
            assert(r@.map.portals =~= Seq::<Portal>::empty());
            Ok(r)
        },
    }
}

// ---------------------------------------------------------------------------
// Portals and the player start
// ---------------------------------------------------------------------------

/// One entry per placed portal of every map, in order: its entity id, the
/// index of its map and its position.
pub open spec fn portal_entries(maps: Seq<ParsedMapView>) -> Seq<(Seq<char>, int, UVec2)>
    decreases maps.len(),
{
    if maps.len() == 0 {
        Seq::empty()
    } else {
        let m = maps.len() - 1;
        portal_entries(maps.drop_last()) + maps.last().portals.map_values(
            |p: ParsedPortalView| (p.entity_iid, m, p.position),
        )
    }
}

/// The map index and position of the last placed portal with entity id
/// `iid`.
pub open spec fn lookup_portal(entries: Seq<(Seq<char>, int, UVec2)>, iid: Seq<char>) -> Option<(int, UVec2)>
    decreases entries.len(),
{
    if entries.len() == 0 {
        None
    } else if entries.last().0 == iid {
        Some((entries.last().1, entries.last().2))
    } else {
        lookup_portal(entries.drop_last(), iid)
    }
}

/// The portals of one map with their targets found, or the entity id of
/// the first portal whose target does not exist.
pub open spec fn resolve_list(entries: Seq<(Seq<char>, int, UVec2)>, ps: Seq<ParsedPortalView>) -> Result<Seq<Portal>, Seq<char>>
    decreases ps.len(),
{
    if ps.len() == 0 {
        Ok(Seq::empty())
    } else {
        match resolve_list(entries, ps.drop_last()) {
            Err(iid) => Err(iid),
            Ok(prev) => match lookup_portal(entries, ps.last().target_entity_iid) {
                None => Err(ps.last().entity_iid),
                Some(target) => Ok(
                    prev.push(
                        Portal {
                            position: ps.last().position,
                            target_room_id: RoomId(target.0 as u64),
                            target_position: target.1,
                        },
                    ),
                ),
            },
        }
    }
}

/// The resolved portals of every map, or the entity id of the first portal
/// (by map, then by placement) whose target does not exist.
pub open spec fn resolve_all(entries: Seq<(Seq<char>, int, UVec2)>, maps: Seq<ParsedMapView>) -> Result<Seq<Seq<Portal>>, Seq<char>>
    decreases maps.len(),
{
    if maps.len() == 0 {
        Ok(Seq::empty())
    } else {
        match resolve_all(entries, maps.drop_last()) {
            Err(iid) => Err(iid),
            Ok(prev) => match resolve_list(entries, maps.last().portals) {
                Err(iid) => Err(iid),
                Ok(ps) => Ok(prev.push(ps)),
            },
        }
    }
}

/// The views of a list of converted maps.
pub open spec fn parsed_views(s: Seq<ParsedMap>) -> Seq<ParsedMapView> {
    s.map_values(|m: ParsedMap| m@)
}

/// An entry of the portal table.
#[derive(Debug, Clone)]
pub struct PortalEntry {
    pub entity_iid: String,
    pub map_index: usize,
    pub position: UVec2,
}

/// The views of the portal table.
pub open spec fn entry_views(s: Seq<PortalEntry>) -> Seq<(Seq<char>, int, UVec2)> {
    s.map_values(|e: PortalEntry| (e.entity_iid@, e.map_index as int, e.position))
}

/// Lists every placed portal of every map.
pub fn collect_portal_entries(maps: &Vec<ParsedMap>) -> (r: Vec<PortalEntry>)
    ensures
        entry_views(r@) == portal_entries(parsed_views(maps@)),
{
    let ghost pv = parsed_views(maps@);
    let mut r: Vec<PortalEntry> = Vec::new();
    let mut i: usize = 0;
    assert(pv.take(0) =~= Seq::<ParsedMapView>::empty());
    assert(entry_views(r@) =~= Seq::empty());
    while i < maps.len()
        invariant
            pv == parsed_views(maps@),
            i <= maps.len(),
            entry_views(r@) == portal_entries(pv.take(i as int)),
        decreases maps.len() - i,
    {
        let ghost before = entry_views(r@);
        let portals = &maps[i].portals;
        assert(pv.take(i + 1).drop_last() =~= pv.take(i as int));
        assert(pv.take(i + 1).last().portals == portal_views(portals@));
        let ghost added = portal_views(portals@).map_values(
            |p: ParsedPortalView| (p.entity_iid, i as int, p.position),
        );
        let mut k: usize = 0;
        while k < portals.len()
            invariant
                i < maps.len(),
                *portals == maps@[i as int].portals,
                added == portal_views(portals@).map_values(
                    |p: ParsedPortalView| (p.entity_iid, i as int, p.position),
                ),
                k <= portals.len(),
                entry_views(r@) == before + added.take(k as int),
            decreases portals.len() - k,
        {
            let ghost b = r@;
            r.push(
                PortalEntry {
                    entity_iid: portals[k].entity_iid.clone(),
                    map_index: i,
                    position: portals[k].position,
                },
            );
            assert(entry_views(r@) =~= entry_views(b).push(added[k as int]));
            assert(added.take(k + 1) =~= added.take(k as int).push(added[k as int]));
            k = k + 1;
        }
        assert(added.take(portals.len() as int) =~= added);
        i = i + 1;
    }
    assert(pv.take(maps.len() as int) =~= pv);
    r
}

/// Finds the last entry with entity id `iid`.
pub fn lookup_portal_entry(entries: &Vec<PortalEntry>, iid: &String) -> (r: Option<(usize, UVec2)>)
    ensures
        match lookup_portal(entry_views(entries@), iid@) {
            None => r is None,
            Some(t) => r is Some && r.unwrap().0 as int == t.0 && r.unwrap().1 == t.1,
        },
{
    let ghost ev = entry_views(entries@);
    let mut i: usize = entries.len();
    assert(ev.take(i as int) =~= ev);
    while i > 0
        invariant
            ev == entry_views(entries@),
            i <= entries.len(),
            lookup_portal(ev, iid@) == lookup_portal(ev.take(i as int), iid@),
        decreases i,
    {
        let ghost t = ev.take(i as int);
        assert(t.drop_last() =~= ev.take(i - 1));
        assert(t.last() == ev[i - 1]);
        if entries[i - 1].entity_iid == *iid {
            return Some((entries[i - 1].map_index, entries[i - 1].position));
        }
        i = i - 1;
    }
    None
}

/// Finds the targets of the portals of one map.
pub fn resolve_map_portals(entries: &Vec<PortalEntry>, portals: &Vec<ParsedPortal>) -> (r: Result<Vec<Portal>, MapError>)
    requires
        forall|j: int| 0 <= j < entries@.len() ==> (#[trigger] entries@[j]).map_index <= u64::MAX,
    ensures
        match resolve_list(entry_views(entries@), portal_views(portals@)) {
            Ok(ps) => r is Ok && r->Ok_0@ == ps,
            Err(iid) => r is Err && r->Err_0@ == MapErrorView::PortalTargetNotFound(iid),
        },
{
    let ghost ev = entry_views(entries@);
    let ghost pv = portal_views(portals@);
    let mut r: Vec<Portal> = Vec::new();
    let mut k: usize = 0;
    assert(pv.take(0) =~= Seq::<ParsedPortalView>::empty());
    while k < portals.len()
        invariant
            ev == entry_views(entries@),
            pv == portal_views(portals@),
            k <= portals.len(),
            resolve_list(ev, pv.take(k as int)) == Ok::<Seq<Portal>, Seq<char>>(r@),
        decreases portals.len() - k,
    {
        let ghost t = pv.take(k + 1);
        assert(t.drop_last() =~= pv.take(k as int));
        assert(t.last() == portals@[k as int]@);
        match lookup_portal_entry(entries, &portals[k].target_entity_iid) {
            None => {
                proof {
                    lemma_resolve_list_err_prefix(ev, pv, k + 1);
                }
                return Err(MapError::PortalTargetNotFound(portals[k].entity_iid.clone()));
            },
            Some((m, pos)) => {
                r.push(
                    Portal {
                        position: portals[k].position,
                        target_room_id: RoomId(m as u64),
                        target_position: pos,
                    },
                );
            },
        }
        k = k + 1;
    }
    assert(pv.take(portals.len() as int) =~= pv);
    Ok(r)
}

proof fn lemma_resolve_list_err_prefix(entries: Seq<(Seq<char>, int, UVec2)>, ps: Seq<ParsedPortalView>, n: int)
    requires
        0 <= n <= ps.len(),
        resolve_list(entries, ps.take(n)) is Err,
    ensures
        resolve_list(entries, ps) == resolve_list(entries, ps.take(n)),
    decreases ps.len() - n,
{
    if n < ps.len() {
        assert(ps.take(n + 1).drop_last() =~= ps.take(n));
        lemma_resolve_list_err_prefix(entries, ps, n + 1);
    } else {
        assert(ps.take(n) =~= ps);
    }
}

proof fn lemma_resolve_all_err_prefix(entries: Seq<(Seq<char>, int, UVec2)>, maps: Seq<ParsedMapView>, n: int)
    requires
        0 <= n <= maps.len(),
        resolve_all(entries, maps.take(n)) is Err,
    ensures
        resolve_all(entries, maps) == resolve_all(entries, maps.take(n)),
    decreases maps.len() - n,
{
    if n < maps.len() {
        assert(maps.take(n + 1).drop_last() =~= maps.take(n));
        lemma_resolve_all_err_prefix(entries, maps, n + 1);
    } else {
        assert(maps.take(n) =~= maps);
    }
}

proof fn lemma_entries_map_index(maps: Seq<ParsedMapView>)
    ensures
        forall|j: int| 0 <= j < portal_entries(maps).len() ==> 0 <= (#[trigger] portal_entries(maps)[j]).1 < maps.len(),
    decreases maps.len(),
{
    if maps.len() > 0 {
        lemma_entries_map_index(maps.drop_last());
        let prev = portal_entries(maps.drop_last());
        let e = portal_entries(maps);
        assert forall|j: int| 0 <= j < e.len() implies 0 <= (#[trigger] e[j]).1 < maps.len() by {
            if j < prev.len() {
                assert(e[j] == prev[j]);
            }
        }
    }
}

/// Finds the targets of the portals of every map: each portal leads to the
/// position of the (last) placed portal whose entity id it names.
pub fn resolve_portals(maps: &Vec<ParsedMap>) -> (r: Result<Vec<Vec<Portal>>, MapError>)
    ensures
        match resolve_all(portal_entries(parsed_views(maps@)), parsed_views(maps@)) {
            Ok(ps) => r is Ok && r->Ok_0@.map_values(|v: Vec<Portal>| v@) == ps,
            Err(iid) => r is Err && r->Err_0@ == MapErrorView::PortalTargetNotFound(iid),
        },
{
    let ghost pv = parsed_views(maps@);
    let entries = collect_portal_entries(maps);
    let ghost ev = entry_views(entries@);
    proof {
        lemma_entries_map_index(pv);
        assert forall|j: int| 0 <= j < entries@.len() implies (#[trigger] entries@[j]).map_index <= u64::MAX by {
            assert(ev[j].1 == entries@[j].map_index);
        }
    }
    let mut r: Vec<Vec<Portal>> = Vec::new();
    let mut i: usize = 0;
    assert(pv.take(0) =~= Seq::<ParsedMapView>::empty());
    assert(r@.map_values(|v: Vec<Portal>| v@) =~= Seq::empty());
    while i < maps.len()
        invariant
            pv == parsed_views(maps@),
            ev == entry_views(entries@),
            ev == portal_entries(pv),
            forall|j: int| 0 <= j < entries@.len() ==> (#[trigger] entries@[j]).map_index <= u64::MAX,
            i <= maps.len(),
            resolve_all(ev, pv.take(i as int)) == Ok::<Seq<Seq<Portal>>, Seq<char>>(
                r@.map_values(|v: Vec<Portal>| v@),
            ),
        decreases maps.len() - i,
    {
        let ghost t = pv.take(i + 1);
        assert(t.drop_last() =~= pv.take(i as int));
        assert(t.last() == maps@[i as int]@);
        let ghost before = r@;
        match resolve_map_portals(&entries, &maps[i].portals) {
            Err(e) => {
                proof {
                    lemma_resolve_all_err_prefix(ev, pv, i + 1);
                }
                return Err(e);
            },
            Ok(ps) => {
                r.push(ps);
                assert(r@.map_values(|v: Vec<Portal>| v@) =~= before.map_values(|v: Vec<Portal>| v@).push(ps@));
            },
        }
        i = i + 1;
    }
    assert(pv.take(maps.len() as int) =~= pv);
    Ok(r)
}

/// Every player start of every map with the room it is in, in order.
pub open spec fn spec_player_starts(maps: Seq<ParsedMapView>) -> Seq<(RoomId, UVec2)>
    decreases maps.len(),
{
    if maps.len() == 0 {
        Seq::empty()
    } else {
        let room = RoomId((maps.len() - 1) as u64);
        spec_player_starts(maps.drop_last()) + maps.last().player_starts.map_values(|p: UVec2| (room, p))
    }
}

/// The one player start of the world.
pub open spec fn spec_find_start(maps: Seq<ParsedMapView>) -> Result<(RoomId, UVec2), MapErrorView> {
    let starts = spec_player_starts(maps);
    if starts.len() == 1 {
        Ok(starts[0])
    } else if starts.len() == 0 {
        Err(MapErrorView::NoPlayerStart)
    } else {
        Err(MapErrorView::MultiplePlayerStarts)
    }
}

/// Finds the player start: there must be exactly one in the whole world.
pub fn find_start_position(maps: &Vec<ParsedMap>) -> (r: Result<(RoomId, UVec2), MapError>)
    ensures
        match spec_find_start(parsed_views(maps@)) {
            Ok(s) => r == Ok::<(RoomId, UVec2), MapError>(s),
            Err(e) => r is Err && r->Err_0@ == e,
        },
{
    let ghost pv = parsed_views(maps@);
    let mut starts: Vec<(RoomId, UVec2)> = Vec::new();
    let mut i: usize = 0;
    assert(pv.take(0) =~= Seq::<ParsedMapView>::empty());
    assert(starts@ =~= Seq::empty());
    while i < maps.len()
        invariant
            pv == parsed_views(maps@),
            i <= maps.len(),
            starts@ == spec_player_starts(pv.take(i as int)),
        decreases maps.len() - i,
    {
        let ghost t = pv.take(i + 1);
        assert(t.drop_last() =~= pv.take(i as int));
        assert(t.last() == maps@[i as int]@);
        let ghost before = starts@;
        let ps = &maps[i].player_starts;
        let room = RoomId(i as u64);
        let ghost added = ps@.map_values(|p: UVec2| (room, p));
        let mut k: usize = 0;
        while k < ps.len()
            invariant
                k <= ps.len(),
                added == ps@.map_values(|p: UVec2| (room, p)),
                starts@ == before + added.take(k as int),
            decreases ps.len() - k,
        {
            starts.push((room, ps[k]));
            assert(added.take(k + 1) =~= added.take(k as int).push(added[k as int]));
            assert(starts@ =~= before + added.take(k + 1));
            k = k + 1;
        }
        assert(added.take(ps.len() as int) =~= added);
        assert(t.len() - 1 == i);
        i = i + 1;
    }
    assert(pv.take(maps.len() as int) =~= pv);
    if starts.len() == 1 {
        Ok(starts[0])
    } else if starts.len() == 0 {
        Err(MapError::NoPlayerStart)
    } else {
        Err(MapError::MultiplePlayerStarts)
    }
}

// ---------------------------------------------------------------------------
// The world
// ---------------------------------------------------------------------------

/// The rooms of the game, numbered by level, and where players start.
#[derive(Debug, Clone)]
pub struct World {
    pub maps: Vec<RoomMap>,
    pub start_room_id: RoomId,
    /// The cell of the player start; players appear at its centre.
    pub start_position: UVec2,
}

/// The view of a [`World`].
pub struct WorldView {
    pub maps: Seq<RoomMapView>,
    pub start_room_id: RoomId,
    pub start_position: UVec2,
}

impl View for World {
    type V = WorldView;

    open spec fn view(&self) -> WorldView {
        WorldView {
            maps: self.maps@.map_values(|m: RoomMap| m@),
            start_room_id: self.start_room_id,
            start_position: self.start_position,
        }
    }
}

/// The converted levels, or the error of the first level that fails.
pub open spec fn spec_convert_levels(ldtk_map: LdtkMap, levels: Seq<LdtkLevel>) -> Result<Seq<ParsedMapView>, MapErrorView>
    decreases levels.len(),
{
    if levels.len() == 0 {
        Ok(Seq::empty())
    } else {
        match spec_convert_levels(ldtk_map, levels.drop_last()) {
            Err(e) => Err(e),
            Ok(prev) => match spec_convert_map(ldtk_map, levels.last()) {
                Err(e) => Err(e),
                Ok(m) => Ok(prev.push(m)),
            },
        }
    }
}

/// A room map with its portals set.
pub open spec fn with_portals(m: RoomMapView, portals: Seq<Portal>) -> RoomMapView {
    RoomMapView {
        size: m.size,
        bg_dense_layers: m.bg_dense_layers,
        bg_sparse_layer: m.bg_sparse_layer,
        fg_sparse_layer: m.fg_sparse_layer,
        collisions: m.collisions,
        portals,
        mob_spawns: m.mob_spawns,
    }
}

/// The world that a map converts to: its levels converted in order, then
/// the portals resolved, then the player start found; the first error
/// stops the conversion.
pub open spec fn spec_convert_world(ldtk_map: LdtkMap) -> Result<WorldView, MapErrorView> {
    match spec_convert_levels(ldtk_map, ldtk_map.levels@) {
        Err(e) => Err(e),
        Ok(parsed) => match resolve_all(portal_entries(parsed), parsed) {
            Err(iid) => Err(MapErrorView::PortalTargetNotFound(iid)),
            Ok(portals) => match spec_find_start(parsed) {
                Err(e) => Err(e),
                Ok(start) => Ok(
                    WorldView {
                        maps: Seq::new(parsed.len(), |i: int| with_portals(parsed[i].map, portals[i])),
                        start_room_id: start.0,
                        start_position: start.1,
                    },
                ),
            },
        },
    }
}

/// Converting the map does not overflow or index out of range: each level
/// that is reached fits.
pub open spec fn world_fits(ldtk_map: LdtkMap) -> bool {
    let levels = ldtk_map.levels@;
    forall|i: int|
        0 <= i < levels.len() && (forall|j: int| 0 <= j < i ==> (#[trigger] spec_convert_map(ldtk_map, levels[j])) is Ok)
            ==> #[trigger] level_fits_in(ldtk_map, levels[i])
}

proof fn lemma_levels_err_prefix(ldtk_map: LdtkMap, levels: Seq<LdtkLevel>, n: int)
    requires
        0 <= n <= levels.len(),
        spec_convert_levels(ldtk_map, levels.take(n)) is Err,
    ensures
        spec_convert_levels(ldtk_map, levels) == spec_convert_levels(ldtk_map, levels.take(n)),
    decreases levels.len() - n,
{
    if n < levels.len() {
        assert(levels.take(n + 1).drop_last() =~= levels.take(n));
        lemma_levels_err_prefix(ldtk_map, levels, n + 1);
    } else {
        assert(levels.take(n) =~= levels);
    }
}

proof fn lemma_levels_ok_each(ldtk_map: LdtkMap, levels: Seq<LdtkLevel>)
    requires
        spec_convert_levels(ldtk_map, levels) is Ok,
    ensures
        forall|j: int| 0 <= j < levels.len() ==> (#[trigger] spec_convert_map(ldtk_map, levels[j])) is Ok,
    decreases levels.len(),
{
    if levels.len() > 0 {
        lemma_levels_ok_each(ldtk_map, levels.drop_last());
        assert forall|j: int| 0 <= j < levels.len() implies (#[trigger] spec_convert_map(ldtk_map, levels[j])) is Ok by {
            if j < levels.len() - 1 {
                assert(levels[j] == levels.drop_last()[j]);
            }
        }
    }
}

/// Converts a parsed map into the world: one room per level, portals
/// leading between rooms, and the single player start.
pub fn convert_world(ldtk_map: &LdtkMap) -> (r: Result<World, MapError>)
    requires
        world_fits(*ldtk_map),
    ensures
        result_matches(r, spec_convert_world(*ldtk_map), |w: World| w@),
{
    let levels = &ldtk_map.levels;
    let ghost lv = levels@;
    let mut parsed: Vec<ParsedMap> = Vec::new();
    let mut i: usize = 0;
    assert(lv.take(0) =~= Seq::<LdtkLevel>::empty());
    assert(parsed_views(parsed@) =~= Seq::empty());
    while i < levels.len()
        invariant
            lv == levels@,
            *levels == ldtk_map.levels,
            world_fits(*ldtk_map),
            i <= levels.len(),
            spec_convert_levels(*ldtk_map, lv.take(i as int)) == Ok::<Seq<ParsedMapView>, MapErrorView>(
                parsed_views(parsed@),
            ),
        decreases levels.len() - i,
    {
        let ghost t = lv.take(i + 1);
        assert(t.drop_last() =~= lv.take(i as int));
        assert(t.last() == lv[i as int]);
        proof {
            lemma_levels_ok_each(*ldtk_map, lv.take(i as int));
            assert forall|j: int| 0 <= j < i implies (#[trigger] spec_convert_map(*ldtk_map, lv[j])) is Ok by {
                assert(lv.take(i as int)[j] == lv[j]);
            }
            assert(level_fits_in(*ldtk_map, lv[i as int]));
        }
        let ghost before = parsed@;
        match convert_map(ldtk_map, &levels[i]) {
            Err(e) => {
                proof {
                    lemma_levels_err_prefix(*ldtk_map, lv, i + 1);
                }
                return Err(e);
            },
            Ok(m) => {
                parsed.push(m);
                assert(parsed_views(parsed@) =~= parsed_views(before).push(m@));
            },
        }
        i = i + 1;
    }
    assert(lv.take(levels.len() as int) =~= lv);
    let ghost pv = parsed_views(parsed@);
    let portals = match resolve_portals(&parsed) {
        Err(e) => {
            return Err(e);
        },
        Ok(p) => p,
    };
    let (start_room_id, start_position) = match find_start_position(&parsed) {
        Err(e) => {
            return Err(e);
        },
        Ok(s) => s,
    };
    let ghost portal_views_all = portals@.map_values(|v: Vec<Portal>| v@);
    proof {
        lemma_resolve_all_len(portal_entries(pv), pv);
    }
    let mut maps: Vec<RoomMap> = Vec::new();
    let mut portals = portals;
    let mut k: usize = 0;
    while k < parsed.len()
        invariant
            pv == parsed_views(parsed@),
            portals@.len() == parsed@.len(),
            portal_views_all == portals@.map_values(|v: Vec<Portal>| v@),
            k <= parsed.len(),
            maps@.len() == k,
            forall|j: int| 0 <= j < k ==> (#[trigger] maps@[j])@ == with_portals(pv[j].map, portal_views_all[j]),
        decreases parsed.len() - k,
    {
        let src = &parsed[k].map;
        let map = RoomMap {
            size: src.size,
            bg_dense_layers: src.bg_dense_layers.clone(),
            bg_sparse_layer: copy_cells(&src.bg_sparse_layer),
            fg_sparse_layer: src.fg_sparse_layer.clone(),
            collisions: src.collisions.clone(),
            portals: portals[k].clone(),
            mob_spawns: clone_mob_spawns(&src.mob_spawns),
        };
        assert(map@.bg_dense_layers =~= src@.bg_dense_layers) by {
            lemma_clone_layers(&src.bg_dense_layers, &map.bg_dense_layers);
        }
        assert(map@.bg_sparse_layer =~= src@.bg_sparse_layer);
        assert(map@.fg_sparse_layer =~= src@.fg_sparse_layer);
        assert(map@.collisions =~= src@.collisions);
        assert(map@.portals =~= portal_views_all[k as int]);
        maps.push(map);
        k = k + 1;
    }
    let world = World { maps, start_room_id, start_position };
    assert(world@.maps =~= Seq::new(pv.len(), |i: int| with_portals(pv[i].map, portal_views_all[i])));
    Ok(world)
}

proof fn lemma_resolve_all_len(entries: Seq<(Seq<char>, int, UVec2)>, maps: Seq<ParsedMapView>)
    ensures
        resolve_all(entries, maps) matches Ok(ps) ==> ps.len() == maps.len(),
    decreases maps.len(),
{
    if maps.len() > 0 {
        lemma_resolve_all_len(entries, maps.drop_last());
    }
}

/// Copies a list of tiles with their cells.
pub fn copy_cells(s: &Vec<(UVec2, TileIndex)>) -> (r: Vec<(UVec2, TileIndex)>)
    ensures
        r@ == s@,
{
    let mut r: Vec<(UVec2, TileIndex)> = Vec::new();
    let mut i: usize = 0;
    while i < s.len()
        invariant
            i <= s.len(),
            r@ == s@.take(i as int),
        decreases s.len() - i,
    {
        r.push(s[i]);
        assert(r@ =~= s@.take(i + 1));
        i = i + 1;
    }
    assert(s@.take(s.len() as int) =~= s@);
    r
}

/// Copies a list of mob spawns.
pub fn clone_mob_spawns(s: &Vec<MobSpawn>) -> (r: Vec<MobSpawn>)
    ensures
        mob_views(r@) == mob_views(s@),
{
    let mut r: Vec<MobSpawn> = Vec::new();
    let mut i: usize = 0;
    while i < s.len()
        invariant
            i <= s.len(),
            mob_views(r@) == mob_views(s@).take(i as int),
        decreases s.len() - i,
    {
        let ghost before = r@;
        r.push(MobSpawn { position: s[i].position, mob_template: s[i].mob_template.clone() });
        assert(mob_views(r@) =~= mob_views(before).push(s@[i as int]@));
        assert(mob_views(r@) =~= mob_views(s@).take(i + 1));
        i = i + 1;
    }
    assert(mob_views(s@).take(s.len() as int) =~= mob_views(s@));
    r
}

proof fn lemma_clone_layers(a: &Vec<Vec<TileIndex>>, b: &Vec<Vec<TileIndex>>)
    requires
        a@.len() == b@.len(),
        forall|i: int| 0 <= i < a@.len() ==> vstd::pervasive::cloned(#[trigger] a@[i], b@[i]),
    ensures
        layer_views(a@) =~= layer_views(b@),
{
    assert forall|i: int| 0 <= i < a@.len() implies #[trigger] a@[i]@ == b@[i]@ by {
        assert(vstd::pervasive::cloned(a@[i], b@[i]));
    }
}

proof fn lemma_convert_levels_len(ldtk_map: LdtkMap, levels: Seq<LdtkLevel>)
    ensures
        spec_convert_levels(ldtk_map, levels) matches Ok(p) ==> p.len() == levels.len(),
    decreases levels.len(),
{
    if levels.len() > 0 {
        lemma_convert_levels_len(ldtk_map, levels.drop_last());
    }
}

proof fn lemma_resolve_list_targets(entries: Seq<(Seq<char>, int, UVec2)>, ps: Seq<ParsedPortalView>, bound: int)
    requires
        bound <= u64::MAX + 1,
        forall|j: int| 0 <= j < entries.len() ==> 0 <= (#[trigger] entries[j]).1 < bound,
    ensures
        resolve_list(entries, ps) matches Ok(r) ==> forall|j: int| 0 <= j < r.len() ==> (#[trigger] r[j]).target_room_id.0 < bound,
    decreases ps.len(),
{
    if ps.len() > 0 {
        lemma_resolve_list_targets(entries, ps.drop_last(), bound);
        lemma_lookup_portal_in(entries, ps.last().target_entity_iid);
        if let Ok(r) = resolve_list(entries, ps) {
            let prev = resolve_list(entries, ps.drop_last())->Ok_0;
            assert forall|j: int| 0 <= j < r.len() implies (#[trigger] r[j]).target_room_id.0 < bound by {
                if j < prev.len() {
                    assert(r[j] == prev[j]);
                }
            }
        }
    }
}

proof fn lemma_lookup_portal_in(entries: Seq<(Seq<char>, int, UVec2)>, iid: Seq<char>)
    ensures
        lookup_portal(entries, iid) matches Some(t) ==> exists|j: int| 0 <= j < entries.len() && (#[trigger] entries[j]).1 == t.0,
    decreases entries.len(),
{
    if entries.len() > 0 {
        lemma_lookup_portal_in(entries.drop_last(), iid);
        if entries.last().0 != iid {
            if let Some(t) = lookup_portal(entries, iid) {
                let j = choose|j: int| 0 <= j < entries.drop_last().len() && (#[trigger] entries.drop_last()[j]).1 == t.0;
                assert(entries[j] == entries.drop_last()[j]);
            }
        } else {
            assert(entries[entries.len() - 1] == entries.last());
        }
    }
}

proof fn lemma_resolve_all_targets(entries: Seq<(Seq<char>, int, UVec2)>, maps: Seq<ParsedMapView>, bound: int)
    requires
        bound <= u64::MAX + 1,
        forall|j: int| 0 <= j < entries.len() ==> 0 <= (#[trigger] entries[j]).1 < bound,
    ensures
        resolve_all(entries, maps) matches Ok(r) ==> forall|i: int, j: int|
            0 <= i < r.len() && 0 <= j < r[i].len() ==> (#[trigger] r[i][j]).target_room_id.0 < bound,
    decreases maps.len(),
{
    if maps.len() > 0 {
        lemma_resolve_all_targets(entries, maps.drop_last(), bound);
        lemma_resolve_list_targets(entries, maps.last().portals, bound);
        if let Ok(r) = resolve_all(entries, maps) {
            let prev = resolve_all(entries, maps.drop_last())->Ok_0;
            assert forall|i: int, j: int| 0 <= i < r.len() && 0 <= j < r[i].len() implies (#[trigger] r[i][j]).target_room_id.0 < bound by {
                if i < prev.len() {
                    assert(r[i] == prev[i]);
                }
            }
        }
    }
}

proof fn lemma_starts_rooms(maps: Seq<ParsedMapView>)
    requires
        maps.len() <= u64::MAX + 1,
    ensures
        forall|k: int| 0 <= k < spec_player_starts(maps).len() ==> (#[trigger] spec_player_starts(maps)[k]).0.0 < maps.len(),
    decreases maps.len(),
{
    if maps.len() > 0 {
        lemma_starts_rooms(maps.drop_last());
        let prev = spec_player_starts(maps.drop_last());
        let all = spec_player_starts(maps);
        assert forall|k: int| 0 <= k < all.len() implies (#[trigger] all[k]).0.0 < maps.len() by {
            if k < prev.len() {
                assert(all[k] == prev[k]);
            }
        }
    }
}

/// In a converted world the player start lies in one of its rooms, and
/// every portal leads to one of its rooms.
pub proof fn law_world_rooms_exist(ldtk_map: LdtkMap)
    requires
        ldtk_map.levels@.len() <= u64::MAX,
    ensures
        spec_convert_world(ldtk_map) matches Ok(w) ==> {
            &&& w.start_room_id.0 < w.maps.len()
            &&& forall|i: int, j: int|
                0 <= i < w.maps.len() && 0 <= j < w.maps[i].portals.len() ==> (#[trigger] w.maps[i].portals[j]).target_room_id.0
                    < w.maps.len()
        },
{
    lemma_convert_levels_len(ldtk_map, ldtk_map.levels@);
    if let Ok(parsed) = spec_convert_levels(ldtk_map, ldtk_map.levels@) {
        let entries = portal_entries(parsed);
        lemma_entries_map_index(parsed);
        lemma_resolve_all_targets(entries, parsed, parsed.len() as int);
        lemma_resolve_all_len(entries, parsed);
        lemma_starts_rooms(parsed);
        if let Ok(w) = spec_convert_world(ldtk_map) {
            let portals = resolve_all(entries, parsed)->Ok_0;
            assert forall|i: int, j: int|
                0 <= i < w.maps.len() && 0 <= j < w.maps[i].portals.len() implies (#[trigger] w.maps[i].portals[j]).target_room_id.0
                    < w.maps.len() by {
                assert(w.maps[i].portals == portals[i]);
            }
        }
    }
}

proof fn lemma_slot_fits_u64(y: u32, w: u32, x: u32)
    by (nonlinear_arith)
    ensures
        0 <= y * w <= y * w + x <= u64::MAX,
        0 <= w * y <= u64::MAX,
{
}

/// Whether every tile of a layer lands in one of its cells, given that the
/// cell count fits.
fn slots_within_check(tiles: &Vec<LdtkTileInstance>, width: u32, height: u32, grid_size: u32) -> (b: bool)
    requires
        grid_size > 0,
        width * height <= u32::MAX,
    ensures
        b == slots_within(tiles@, width, height, grid_size),
{
    let n = width * height;
    let mut t: usize = 0;
    while t < tiles.len()
        invariant
            grid_size > 0,
            n == width * height,
            t <= tiles.len(),
            forall|k: int| 0 <= k < t ==> slot(tile_position(#[trigger] tiles@[k], grid_size), width) < width * height,
        decreases tiles.len() - t,
    {
        let tile = tiles[t];
        assert(tiles@[t as int] == tile);
        let x = tile.px[0] / grid_size;
        let y = tile.px[1] / grid_size;
        proof {
            lemma_slot_fits_u64(y, width, x);
        }
        let s = y as u64 * width as u64 + x as u64;
        assert(s == slot(tile_position(tile, grid_size), width));
        if s >= n as u64 {
            return false;
        }
        t = t + 1;
    }
    true
}

/// Whether every layer of a level that the conversion reaches fits.
fn layers_fit_check(layers: &Vec<LdtkLayerInstance>, grid_size: u32, h1: &Vec<TileIndex>, h2: &Vec<TileIndex>) -> (b: bool)
    ensures
        b == layers_fit(layers@, grid_size, h1@, h2@),
{
    let ghost lv = layers@;
    let mut k: usize = 0;
    while k < layers.len()
        invariant
            lv == layers@,
            k <= layers.len(),
            layers_pass(lv, grid_size, k as int),
            forall|j: int| 0 <= j < k && layers_pass(lv, grid_size, j) ==> #[trigger] layer_fits(lv[j], grid_size, h1@, h2@),
        decreases layers.len() - k,
    {
        let layer = &layers[k];
        assert(lv[k as int] == *layer);
        if layer.grid_tiles.len() > 0 {
            if grid_size == 0 {
                assert(!layer_fits(lv[k as int], grid_size, h1@, h2@));
                return false;
            }
            if !layer_on_grid(&layer.grid_tiles, grid_size) {
                proof {
                    assert(!layer_passes(lv[k as int], grid_size));
                    assert forall|j: int| 0 <= j < lv.len() && layers_pass(lv, grid_size, j) implies #[trigger] layer_fits(
                        lv[j],
                        grid_size,
                        h1@,
                        h2@,
                    ) by {
                        if j > k {
                            assert(layer_passes(lv[k as int], grid_size));
                        }
                    }
                }
                return true;
            }
            let sparse = layer_has_duplicate_positions(&layer.grid_tiles) || layer_has_foreground_tiles(
                &layer.grid_tiles,
                h1,
                h2,
            );
            if !sparse {
                if layer.width.checked_mul(layer.height).is_none() {
                    assert(!layer_fits(lv[k as int], grid_size, h1@, h2@));
                    return false;
                }
                if !slots_within_check(&layer.grid_tiles, layer.width, layer.height, grid_size) {
                    assert(!layer_fits(lv[k as int], grid_size, h1@, h2@));
                    return false;
                }
            }
        }
        assert(layer_fits(lv[k as int], grid_size, h1@, h2@));
        assert(layer_passes(lv[k as int], grid_size));
        k = k + 1;
    }
    true
}

/// Whether the collisions of a converted level can be computed.
fn blocked_within_check(parts: &LevelParts, blocked: &Vec<TileIndex>) -> (b: bool)
    ensures
        b == blocked_within(parts@, blocked@),
{
    let w = parts.size.x;
    proof {
        lemma_slot_fits_u64(parts.size.y, w, 0);
    }
    let n = w as u64 * parts.size.y as u64;
    if n > u32::MAX as u64 {
        return false;
    }
    let mut i: usize = 0;
    while i < parts.bg.len()
        invariant
            w == parts.size.x,
            n == parts.size.x * parts.size.y,
            n <= u32::MAX,
            i <= parts.bg.len(),
            forall|k: int|
                0 <= k < i && blocked@.contains(parts.bg@[k].1) ==> slot((#[trigger] parts.bg@[k]).0, w) < n,
        decreases parts.bg.len() - i,
    {
        let (position, tile) = parts.bg[i];
        assert(parts.bg@[i as int] == (position, tile));
        if contains_tile(blocked, tile) {
            proof {
                lemma_slot_fits_u64(position.y, w, position.x);
            }
            if position.y as u64 * w as u64 + position.x as u64 >= n {
                assert(parts@.bg[i as int] == (position, tile));
                assert(slot(parts@.bg[i as int].0, parts@.size.x) >= parts@.size.x * parts@.size.y);
                return false;
            }
        }
        i = i + 1;
    }
    let mut i: usize = 0;
    while i < parts.fg.len()
        invariant
            w == parts.size.x,
            n == parts.size.x * parts.size.y,
            n <= u32::MAX,
            i <= parts.fg.len(),
            forall|k: int|
                0 <= k < parts.bg@.len() && blocked@.contains(parts.bg@[k].1) ==> slot((#[trigger] parts.bg@[k]).0, w) < n,
            forall|k: int|
                0 <= k < i && blocked@.contains(parts.fg@[k].tile_index) ==> slot(
                    (#[trigger] parts.fg@[k]).position,
                    w,
                ) < n,
        decreases parts.fg.len() - i,
    {
        let tile = parts.fg[i];
        assert(parts.fg@[i as int] == tile);
        if contains_tile(blocked, tile.tile_index) {
            proof {
                lemma_slot_fits_u64(tile.position.y, w, tile.position.x);
            }
            if tile.position.y as u64 * w as u64 + tile.position.x as u64 >= n {
                assert(parts@.fg[i as int] == tile);
                assert(slot(parts@.fg[i as int].position, parts@.size.x) >= parts@.size.x * parts@.size.y);
                return false;
            }
        }
        i = i + 1;
    }
    true
}

/// Whether converting the map would not divide by zero, overflow or index
/// out of range: exactly the maps that [`convert_world`] accepts.
pub fn map_fits(ldtk_map: &LdtkMap) -> (b: bool)
    ensures
        b == world_fits(*ldtk_map),
{
    let ghost lv = ldtk_map.levels@;
    if ldtk_map.defs.tilesets.len() == 0 {
        return true;
    }
    let h1 = match collect_enum_tile_ids(ldtk_map, "Foreground_h1") {
        Ok(ids) => ids,
        Err(_) => {
            return true;
        },
    };
    let h2 = match collect_enum_tile_ids(ldtk_map, "Foreground_h2") {
        Ok(ids) => ids,
        Err(_) => {
            return true;
        },
    };
    let blocked = match collect_enum_tile_ids(ldtk_map, "Blocked") {
        Ok(ids) => ids,
        Err(_) => {
            return true;
        },
    };
    let g = ldtk_map.default_grid_size;
    let mut i: usize = 0;
    while i < ldtk_map.levels.len()
        invariant
            lv == ldtk_map.levels@,
            ldtk_map.defs.tilesets@.len() > 0,
            g == ldtk_map.default_grid_size,
            h1@ == spec_tagged_tiles(ldtk_map.defs.tilesets@[0], "Foreground_h1"@),
            h2@ == spec_tagged_tiles(ldtk_map.defs.tilesets@[0], "Foreground_h2"@),
            blocked@ == spec_tagged_tiles(ldtk_map.defs.tilesets@[0], "Blocked"@),
            i <= lv.len(),
            forall|j: int| 0 <= j < i ==> (#[trigger] spec_convert_map(*ldtk_map, lv[j])) is Ok,
            forall|j: int| 0 <= j < i ==> #[trigger] level_fits_in(*ldtk_map, lv[j]),
        decreases lv.len() - i,
    {
        let layers = &ldtk_map.levels[i].layer_instances;
        assert(lv[i as int].layer_instances == *layers);
        if !layers_fit_check(layers, g, &h1, &h2) {
            assert(!level_fits_in(*ldtk_map, lv[i as int]));
            return false;
        }
        match convert_layers(layers, g, &h1, &h2) {
            None => {
                proof {
                    assert(level_fits_in(*ldtk_map, lv[i as int]));
                    assert(spec_convert_map(*ldtk_map, lv[i as int]) is Err);
                    assert forall|k: int|
                        0 <= k < lv.len() && (forall|j: int| 0 <= j < k ==> (#[trigger] spec_convert_map(*ldtk_map, lv[j])) is Ok)
                            implies #[trigger] level_fits_in(*ldtk_map, lv[k]) by {
                        if k > i {
                            assert(spec_convert_map(*ldtk_map, lv[i as int]) is Ok);
                        }
                    }
                }
                return true;
            },
            Some(parts) => {
                if !blocked_within_check(&parts, &blocked) {
                    assert(!level_fits_in(*ldtk_map, lv[i as int]));
                    return false;
                }
                assert(level_fits_in(*ldtk_map, lv[i as int]));
                assert(spec_convert_map(*ldtk_map, lv[i as int]) is Ok);
            },
        }
        i = i + 1;
    }
    true
}

} // verus!
