//! Native crafting-grid preparation, execution, and receipt verification.

use super::inventory::{is_unknown_outcome, TaskIds};
use crate::bot::replies::{listened_for, resolved, PendingReplies, RepliesView};
use crate::bot::validation::{chest_reply_has_nonce, get_status, has_nonce, status_or};
use crate::json::{
    array_of, array_value, bool_member, bool_member_is_true, bool_value, get_u16,
    int_value, json_text, json_value, json_values, member, member_of, null_value, opt_str,
    opt_str_value, parse_value, parsed_json, set_member, str_member, str_member_is, str_value,
    str_view, u16_of, u64_member, value_text, JsonValue,
};
use crate::network::connection::{sent_reliably, ConnectionView, MtpConnection};
use crate::network::events::InventoryLocation;
use crate::network::outbound::{
    chat_sent, craft_payload, move_payload, move_somewhere_payload, outbound_error_text,
    valid_list_name, OutboundErrorView,
};
use crate::network::wire::be16;
use crate::scan::ends_with;
use crate::text::{dec, hex, hex_digits_injective, push_dec, push_hex, to_chars};
use crate::types::{after_ms, later};
use vstd::prelude::*;
use vstd::string::*;
use vstd::utf8::*;

verus! {

/// One ingredient on its way into the grid.
#[derive(Clone, Copy, Debug, PartialEq, Eq, Structural)]
pub struct CraftGridMove {
    pub player_slot: u16,
    pub craft_slot: u16,
    pub count: u16,
}

/// What the server mod has worked out for a request.
#[derive(Clone, Debug)]
pub struct PreparedCraft {
    pub nonce: String,
    pub item: String,
    pub requested: u16,
    pub batches: u16,
    pub produced: u16,
    pub grid_size: u16,
    pub used_table: bool,
    pub moves: Vec<CraftGridMove>,
    pub ingredients: serde_json::Value,
}

/// The value of a [`PreparedCraft`].
pub ghost struct PreparedView {
    pub nonce: Seq<char>,
    pub item: Seq<char>,
    pub requested: u16,
    pub batches: u16,
    pub produced: u16,
    pub grid_size: u16,
    pub used_table: bool,
    pub moves: Seq<CraftGridMove>,
    pub ingredients: JsonValue,
}

impl View for PreparedCraft {
    type V = PreparedView;

    open spec fn view(&self) -> PreparedView {
        PreparedView {
            nonce: self.nonce@,
            item: self.item@,
            requested: self.requested,
            batches: self.batches,
            produced: self.produced,
            grid_size: self.grid_size,
            used_table: self.used_table,
            moves: self.moves@,
            ingredients: json_value(self.ingredients),
        }
    }
}

/// Where a craft is. Times are in milliseconds.
#[derive(Clone, Debug)]
#[allow(inconsistent_fields)]
pub enum NativeCraftPhase {
    Ready,
    Preparing { nonce: String, deadline: u64 },
    Placing { prepared: PreparedCraft, craft_at: u64 },
    Crafting { prepared: PreparedCraft, collect_at: u64 },
    WaitingForReceipt { prepared: PreparedCraft, poll_at: u64, expires_at: u64 },
    ReceiptRequested { prepared: PreparedCraft, retry_at: u64, expires_at: u64 },
}

/// The value of a [`NativeCraftPhase`].
#[allow(inconsistent_fields)]
pub ghost enum CraftPhase {
    Ready,
    Preparing { nonce: Seq<char>, deadline: u64 },
    Placing { prepared: PreparedView, craft_at: u64 },
    Crafting { prepared: PreparedView, collect_at: u64 },
    WaitingForReceipt { prepared: PreparedView, poll_at: u64, expires_at: u64 },
    ReceiptRequested { prepared: PreparedView, retry_at: u64, expires_at: u64 },
}

impl View for NativeCraftPhase {
    type V = CraftPhase;

    open spec fn view(&self) -> CraftPhase {
        match *self {
            NativeCraftPhase::Ready => CraftPhase::Ready,
            NativeCraftPhase::Preparing { nonce, deadline } => CraftPhase::Preparing {
                nonce: nonce@,
                deadline,
            },
            NativeCraftPhase::Placing { prepared, craft_at } => CraftPhase::Placing {
                prepared: prepared@,
                craft_at,
            },
            NativeCraftPhase::Crafting { prepared, collect_at } => CraftPhase::Crafting {
                prepared: prepared@,
                collect_at,
            },
            NativeCraftPhase::WaitingForReceipt { prepared, poll_at, expires_at } => {
                CraftPhase::WaitingForReceipt { prepared: prepared@, poll_at, expires_at }
            },
            NativeCraftPhase::ReceiptRequested { prepared, retry_at, expires_at } => {
                CraftPhase::ReceiptRequested { prepared: prepared@, retry_at, expires_at }
            },
        }
    }
}

/// The craft has been sent, and its outcome is not known yet.
pub open spec fn craft_dispatched(phase: CraftPhase) -> bool {
    phase is Crafting || phase is WaitingForReceipt || phase is ReceiptRequested
}

/// What has been prepared in a phase.
pub open spec fn phase_prepared(phase: CraftPhase) -> Option<PreparedView> {
    match phase {
        CraftPhase::Ready => None,
        CraftPhase::Preparing { .. } => None,
        CraftPhase::Placing { prepared, .. } => Some(prepared),
        CraftPhase::Crafting { prepared, .. } => Some(prepared),
        CraftPhase::WaitingForReceipt { prepared, .. } => Some(prepared),
        CraftPhase::ReceiptRequested { prepared, .. } => Some(prepared),
    }
}

/// The nonce that the server mod knows a craft by.
pub open spec fn craft_nonce(phase: CraftPhase) -> Option<Seq<char>> {
    match phase {
        CraftPhase::Ready => None,
        CraftPhase::Preparing { nonce, .. } => Some(nonce),
        _ => Some(phase_prepared(phase)->0.nonce),
    }
}

impl NativeCraftPhase {
    pub fn action_dispatched(&self) -> (yes: bool)
        ensures
            yes == craft_dispatched(self@),
    {
        match self {
            NativeCraftPhase::Crafting { .. } => true,
            NativeCraftPhase::WaitingForReceipt { .. } => true,
            NativeCraftPhase::ReceiptRequested { .. } => true,
            _ => false,
        }
    }
}

pub fn craft_phase_prepared(phase: &NativeCraftPhase) -> (prepared: Option<&PreparedCraft>)
    ensures
        match prepared {
            Some(p) => phase_prepared(phase@) == Some(p@),
            None => phase_prepared(phase@) is None,
        },
{
    match phase {
        NativeCraftPhase::Ready => None,
        NativeCraftPhase::Preparing { .. } => None,
        NativeCraftPhase::Placing { prepared, .. } => Some(prepared),
        NativeCraftPhase::Crafting { prepared, .. } => Some(prepared),
        NativeCraftPhase::WaitingForReceipt { prepared, .. } => Some(prepared),
        NativeCraftPhase::ReceiptRequested { prepared, .. } => Some(prepared),
    }
}

pub fn craft_phase_nonce(phase: &NativeCraftPhase) -> (nonce: Option<&str>)
    ensures
        str_view(nonce) == craft_nonce(phase@),
{
    match phase {
        NativeCraftPhase::Ready => None,
        NativeCraftPhase::Preparing { nonce, .. } => Some(nonce.as_str()),
        NativeCraftPhase::Placing { prepared, .. } => Some(prepared.nonce.as_str()),
        NativeCraftPhase::Crafting { prepared, .. } => Some(prepared.nonce.as_str()),
        NativeCraftPhase::WaitingForReceipt { prepared, .. } => Some(prepared.nonce.as_str()),
        NativeCraftPhase::ReceiptRequested { prepared, .. } => Some(prepared.nonce.as_str()),
    }
}

/// A request for crafted items.
#[derive(Clone, Debug)]
pub struct NativeCraftTask {
    pub id: u64,
    pub item: String,
    pub requested: u16,
    pub phase: NativeCraftPhase,
}

/// The value of a [`NativeCraftTask`].
pub ghost struct CraftView {
    pub id: u64,
    pub item: Seq<char>,
    pub requested: u16,
    pub phase: CraftPhase,
}

impl View for NativeCraftTask {
    type V = CraftView;

    open spec fn view(&self) -> CraftView {
        CraftView {
            id: self.id,
            item: self.item@,
            requested: self.requested,
            phase: self.phase@,
        }
    }
}

pub open spec fn craft_view(task: Option<NativeCraftTask>) -> Option<CraftView> {
    match task {
        Some(t) => Some(t@),
        None => None,
    }
}

pub open spec fn new_craft(id: u64, item: Seq<char>, requested: u16) -> CraftView {
    CraftView { id, item, requested, phase: CraftPhase::Ready }
}

impl NativeCraftTask {
    pub fn new(ids: &mut TaskIds, item: String, requested: u16) -> (task: Self)
        ensures
            task@ == new_craft(old(ids).next, item@, requested),
            final(ids).next == (if old(ids).next == u64::MAX {
                0u64
            } else {
                (old(ids).next + 1) as u64
            }),
    {
        NativeCraftTask { id: ids.allocate(), item, requested, phase: NativeCraftPhase::Ready }
    }
}

/// What was prepared is consistent: the ingredients go into slots of the grid, one
/// or more of each.
pub open spec fn prepared_wf(p: PreparedView) -> bool {
    forall|i: int|
        0 <= i < p.moves.len() ==> (#[trigger] p.moves[i]).craft_slot < p.grid_size
            && p.moves[i].count > 0
}

pub open spec fn craft_wf(task: Option<CraftView>) -> bool {
    match task {
        Some(t) => match phase_prepared(t.phase) {
            Some(p) => prepared_wf(p),
            None => true,
        },
        None => true,
    }
}

/// What a craft acts on: itself, the connection, and the waiting requests.
pub ghost struct CraftState {
    pub task: Option<CraftView>,
    pub conn: ConnectionView,
    pub replies: RepliesView,
}

pub open spec fn craft_state(
    task: Option<NativeCraftTask>,
    conn: MtpConnection,
    replies: PendingReplies,
) -> CraftState {
    CraftState { task: craft_view(task), conn: conn@, replies: replies@ }
}

pub open spec fn slot_used(moves: Seq<CraftGridMove>, slot: int) -> bool {
    exists|i: int| 0 <= i < moves.len() && (#[trigger] moves[i]).craft_slot == slot
}

/// The grid slots below `limit` that are used, each once and in order.
pub open spec fn used_slots(moves: Seq<CraftGridMove>, limit: nat) -> Seq<u16>
    decreases limit,
{
    if limit == 0 {
        seq![]
    } else {
        let before = used_slots(moves, (limit - 1) as nat);
        if slot_used(moves, limit - 1) {
            before.push((limit - 1) as u16)
        } else {
            before
        }
    }
}

/// Whatever lies in the given grid slots goes back to the player.
pub open spec fn slots_returned(conn: ConnectionView, slots: Seq<u16>) -> ConnectionView
    decreases slots.len(),
{
    if slots.len() == 0 {
        conn
    } else {
        sent_reliably(
            slots_returned(conn, slots.drop_last()),
            move_somewhere_payload(
                u16::MAX,
                InventoryLocation::CurrentPlayer,
                "craft"@,
                slots.last(),
                InventoryLocation::CurrentPlayer,
                "main"@,
            ),
        )
    }
}

/// The grid and the result slot are emptied into the player's inventory.
pub open spec fn grid_cleaned(conn: ConnectionView, p: PreparedView) -> ConnectionView {
    sent_reliably(
        slots_returned(conn, used_slots(p.moves, p.grid_size as nat)),
        move_somewhere_payload(
            u16::MAX,
            InventoryLocation::CurrentPlayer,
            "craftresult"@,
            0,
            InventoryLocation::CurrentPlayer,
            "main"@,
        ),
    )
}

proof fn list_names_are_valid()
    ensures
        valid_list_name("main"@),
        valid_list_name("craft"@),
        valid_list_name("craftresult"@),
{
    reveal_strlit("main");
    reveal_strlit("craft");
    reveal_strlit("craftresult");
    assert("main"@.len() == 4 && "craft"@.len() == 5 && "craftresult"@.len() == 11);
}

fn is_slot_used(moves: &Vec<CraftGridMove>, slot: u16) -> (yes: bool)
    ensures
        yes == slot_used(moves@, slot as int),
{
    let mut i: usize = 0;
    while i < moves.len()
        invariant
            i <= moves.len(),
            forall|k: int| 0 <= k < i ==> (#[trigger] moves@[k]).craft_slot != slot,
        decreases moves.len() - i,
    {
        if moves[i].craft_slot == slot {
            return true;
        }
        i = i + 1;
    }
    false
}

/// Empties the grid and the result slot into the player's inventory.
pub fn clean_native_craft_grid(conn: &mut MtpConnection, prepared: &PreparedCraft)
    requires
        old(conn).wf(),
        prepared_wf(prepared@),
    ensures
        final(conn).wf(),
        final(conn)@ == grid_cleaned(old(conn)@, prepared@),
{
    proof {
        list_names_are_valid();
    }
    let mut slot: u16 = 0;
    while slot < prepared.grid_size
        invariant
            slot <= prepared.grid_size,
            conn.wf(),
            valid_list_name("main"@),
            valid_list_name("craft"@),
            conn@ == slots_returned(old(conn)@, used_slots(prepared.moves@, slot as nat)),
        decreases prepared.grid_size - slot,
    {
        if is_slot_used(&prepared.moves, slot) {
            let sent = conn.send_inventory_move_somewhere(
                u16::MAX,
                InventoryLocation::CurrentPlayer,
                "craft",
                slot,
                InventoryLocation::CurrentPlayer,
                "main",
            );
            assert(used_slots(prepared.moves@, (slot + 1) as nat).drop_last() =~= used_slots(
                prepared.moves@,
                slot as nat,
            ));
        }
        slot = slot + 1;
    }
    let sent = conn.send_inventory_move_somewhere(
        u16::MAX,
        InventoryLocation::CurrentPlayer,
        "craftresult",
        0,
        InventoryLocation::CurrentPlayer,
        "main",
    );
}

/// What a request for crafted items is answered with.
pub open spec fn craft_reply(
    t: CraftView,
    ok: bool,
    status: Seq<char>,
    delivered: u16,
    prepared: Option<PreparedView>,
) -> JsonValue {
    let (produced, batches, grid_size, used_table, ingredients) = match prepared {
        Some(p) => (p.produced, p.batches, p.grid_size, p.used_table, p.ingredients),
        None => (0u16, 0u16, 0u16, false, JsonValue::Array(seq![])),
    };
    let surplus = if delivered >= t.requested { delivered - t.requested } else { 0 };
    JsonValue::Object(
        Map::empty().insert("ok"@, JsonValue::Bool(ok)).insert(
            "status"@,
            JsonValue::Str(status),
        ).insert("item"@, JsonValue::Str(t.item)).insert(
            "requested"@,
            JsonValue::Int(t.requested as int),
        ).insert("produced"@, JsonValue::Int(produced as int)).insert(
            "delivered"@,
            JsonValue::Int(delivered as int),
        ).insert("batches"@, JsonValue::Int(batches as int)).insert(
            "grid_size"@,
            JsonValue::Int(grid_size as int),
        ).insert("surplus"@, JsonValue::Int(surplus)).insert(
            "used_table"@,
            JsonValue::Bool(used_table),
        ).insert("ingredients"@, ingredients).insert(
            "outcome_unknown"@,
            JsonValue::Bool(is_unknown_outcome(status)),
        ).insert(
            "error"@,
            opt_str(
                if ok {
                    None
                } else {
                    Some(status)
                },
            ),
        ),
    )
}

/// The craft ends and its request is answered.
pub open spec fn craft_resolved(
    s: CraftState,
    ok: bool,
    status: Seq<char>,
    delivered: u16,
    prepared: Option<PreparedView>,
) -> CraftState {
    match s.task {
        Some(t) => CraftState {
            task: None,
            conn: s.conn,
            replies: resolved(
                s.replies,
                "BOT_CRAFT"@,
                json_text(craft_reply(t, ok, status, delivered, prepared)),
            ),
        },
        None => s,
    }
}

/// The error that is reported: where the craft was sent, its outcome is unknown.
pub open spec fn craft_error(t: CraftView, error: Seq<char>) -> Seq<char> {
    if craft_dispatched(t.phase) && !is_unknown_outcome(error) {
        error + "_outcome_unknown"@
    } else {
        error
    }
}

/// The grid is emptied and the server mod told to forget the craft, as far as it
/// has got.
pub open spec fn craft_withdrawn(conn: ConnectionView, phase: CraftPhase) -> ConnectionView {
    let cleaned = match phase_prepared(phase) {
        Some(p) => grid_cleaned(conn, p),
        None => conn,
    };
    match craft_nonce(phase) {
        Some(nonce) => chat_sent(cleaned, "/bot_craft_cancel "@ + nonce),
        None => cleaned,
    }
}

/// The craft fails.
pub open spec fn craft_failed(s: CraftState, error: Seq<char>) -> CraftState {
    match s.task {
        Some(t) => craft_resolved(
            CraftState { conn: craft_withdrawn(s.conn, t.phase), ..s },
            false,
            craft_error(t, error),
            0,
            phase_prepared(t.phase),
        ),
        None => s,
    }
}

/// The nonce of the craft with the given number.
pub open spec fn nonce_for(id: u64) -> Seq<char> {
    "craft-"@ + hex(id as int)
}

/// A craft that is ready asks for its preparation.
pub open spec fn craft_begun(task: Option<CraftView>, conn: ConnectionView, now: u64) -> (
    Option<CraftView>,
    ConnectionView,
) {
    match task {
        Some(t) => if t.phase is Ready {
            let nonce = nonce_for(t.id);
            (
                Some(
                    CraftView {
                        phase: CraftPhase::Preparing { nonce, deadline: later(now, 4000) },
                        ..t
                    },
                ),
                chat_sent(
                    conn,
                    "/bot_craft_prepare "@ + nonce + " "@ + t.item + " "@ + dec(t.requested as int),
                ),
            )
        } else {
            (task, conn)
        },
        None => (task, conn),
    }
}

/// A member that is a number between two limits.
pub open spec fn bounded_member(v: JsonValue, key: Seq<char>, min: u16, max: u16) -> Option<u16> {
    match u16_of(u64_member(v, key)) {
        Some(n) => if min <= n <= max {
            Some(n)
        } else {
            None
        },
        None => None,
    }
}

pub fn bounded_json_u16(value: &serde_json::Value, key: &str, minimum: u16, maximum: u16) -> (n:
    Option<u16>)
    ensures
        n == bounded_member(json_value(*value), key@, minimum, maximum),
{
    let n: u16 = get_u16(value, key)?;
    if minimum <= n && n <= maximum {
        Some(n)
    } else {
        None
    }
}

/// One ingredient of a prepared craft.
pub open spec fn grid_move(v: JsonValue, grid_size: u16) -> Option<CraftGridMove> {
    let player_slot = bounded_member(v, "player_slot"@, 0, u16::MAX);
    let craft_slot = bounded_member(v, "craft_slot"@, 0, (grid_size - 1) as u16);
    let count = bounded_member(v, "count"@, 1, 99);
    match (player_slot, craft_slot, count) {
        (Some(player_slot), Some(craft_slot), Some(count)) => Some(
            CraftGridMove { player_slot, craft_slot, count },
        ),
        _ => None,
    }
}

/// The well-formed ones among the given ingredients.
pub open spec fn grid_moves(items: Seq<JsonValue>, grid_size: u16) -> Seq<CraftGridMove>
    decreases items.len(),
{
    if items.len() == 0 {
        seq![]
    } else {
        let before = grid_moves(items.drop_last(), grid_size);
        match grid_move(items.last(), grid_size) {
            Some(m) => before.push(m),
            None => before,
        }
    }
}

pub open spec fn move_items(v: JsonValue) -> Seq<JsonValue> {
    match member_of(v, "moves"@) {
        Some(m) => match array_of(m) {
            Some(items) => items,
            None => seq![],
        },
        None => seq![],
    }
}

pub open spec fn reply_requested(t: CraftView, v: JsonValue) -> u16 {
    match bounded_member(v, "requested"@, 1, 64) {
        Some(n) => n,
        None => t.requested,
    }
}

pub open spec fn reply_produced(t: CraftView, v: JsonValue) -> Option<u16> {
    let requested = reply_requested(t, v);
    match bounded_member(v, "produced"@, requested, 64) {
        Some(n) => Some(n),
        None => bounded_member(v, "output_count"@, requested, 64),
    }
}

/// Why a prepared craft is not carried out, or what was prepared.
pub open spec fn prepared_craft(t: CraftView, nonce: Seq<char>, v: JsonValue) -> Result<
    PreparedView,
    Seq<char>,
> {
    if bool_member(v, "ok"@) != Some(true) {
        Err(status_or(v, "prepare_failed"@))
    } else if str_member(v, "item"@) != Some(t.item) {
        Err("prepare_mismatch"@)
    } else {
        match (
            bounded_member(v, "batches"@, 1, 8),
            reply_produced(t, v),
            bounded_member(v, "grid_size"@, 4, 9),
        ) {
            (Some(batches), Some(produced), Some(grid_size)) => {
                let moves = grid_moves(move_items(v), grid_size);
                let used_table = match bool_member(v, "used_table"@) {
                    Some(b) => b,
                    None => grid_size == 9,
                };
                if grid_size != 4 && grid_size != 9 {
                    Err("prepare_invalid_grid_size"@)
                } else if reply_requested(t, v) != t.requested {
                    Err("prepare_requested_count_mismatch"@)
                } else if moves.len() == 0 || moves.len() != move_items(v).len() || moves.len()
                    > 36 {
                    Err("prepare_invalid_moves"@)
                } else if grid_size == 9 && !used_table {
                    Err("crafting_table_required"@)
                } else {
                    Ok(
                        PreparedView {
                            nonce,
                            item: t.item,
                            requested: t.requested,
                            batches,
                            produced,
                            grid_size,
                            used_table,
                            moves,
                            ingredients: match member_of(v, "ingredients"@) {
                                Some(m) => m,
                                None => JsonValue::Array(seq![]),
                            },
                        },
                    )
                }
            },
            _ => Err("prepare_invalid_counts"@),
        }
    }
}

/// The ingredients are moved into the grid.
pub open spec fn ingredients_placed(conn: ConnectionView, moves: Seq<CraftGridMove>) -> ConnectionView
    decreases moves.len(),
{
    if moves.len() == 0 {
        conn
    } else {
        let m = moves.last();
        sent_reliably(
            ingredients_placed(conn, moves.drop_last()),
            move_payload(
                m.count,
                InventoryLocation::CurrentPlayer,
                "main"@,
                m.player_slot,
                InventoryLocation::CurrentPlayer,
                "craft"@,
                m.craft_slot,
            ),
        )
    }
}

/// The reply to a preparation has come in. One that is not awaited, or that bears
/// another nonce, changes nothing.
pub open spec fn craft_prepared(s: CraftState, v: JsonValue, now: u64) -> CraftState {
    match s.task {
        Some(t) => match t.phase {
            CraftPhase::Preparing { nonce, .. } => if !has_nonce(v, nonce) {
                s
            } else {
                match prepared_craft(t, nonce, v) {
                    Err(error) => craft_failed(s, error),
                    Ok(prepared) => CraftState {
                        task: Some(
                            CraftView {
                                phase: CraftPhase::Placing { prepared, craft_at: later(now, 250) },
                                ..t
                            },
                        ),
                        conn: ingredients_placed(s.conn, prepared.moves),
                        replies: s.replies,
                    },
                }
            },
            _ => s,
        },
        None => s,
    }
}

pub open spec fn reply_delivered(p: PreparedView, v: JsonValue) -> Option<u16> {
    match bounded_member(v, "delivered"@, 1, p.produced) {
        Some(n) => Some(n),
        None => bounded_member(v, "moved"@, 1, p.produced),
    }
}

/// A receipt has come in.
pub open spec fn craft_receipt(s: CraftState, v: JsonValue, now: u64) -> CraftState {
    match s.task {
        Some(t) => match t.phase {
            CraftPhase::ReceiptRequested { prepared, expires_at, .. } => {
                if !has_nonce(v, prepared.nonce) {
                    s
                } else if str_member(v, "status"@) == Some("pending"@) {
                    CraftState {
                        task: Some(
                            CraftView {
                                phase: CraftPhase::WaitingForReceipt {
                                    prepared,
                                    poll_at: later(now, 200),
                                    expires_at,
                                },
                                ..t
                            },
                        ),
                        ..s
                    }
                } else if bool_member(v, "ok"@) != Some(true) {
                    craft_failed(s, status_or(v, "receipt_failed"@))
                } else if str_member(v, "item"@) != Some(prepared.item) {
                    craft_failed(s, "receipt_mismatch"@)
                } else {
                    match reply_delivered(prepared, v) {
                        None => craft_failed(s, "receipt_invalid_delivered_count"@),
                        Some(delivered) => {
                            let ok = delivered >= prepared.requested;
                            let status = if ok { "crafted"@ } else { "partially_crafted"@ };
                            craft_resolved(s, ok, status, delivered, Some(prepared))
                        },
                    }
                }
            },
            _ => s,
        },
        None => s,
    }
}

pub open spec fn with_phase(s: CraftState, t: CraftView, phase: CraftPhase) -> CraftState {
    CraftState { task: Some(CraftView { phase, ..t }), ..s }
}

/// Time has passed.
pub open spec fn craft_advanced(s: CraftState, now: u64) -> CraftState {
    match s.task {
        Some(t) => match t.phase {
            CraftPhase::Ready => s,
            CraftPhase::Preparing { deadline, .. } => if now >= deadline {
                craft_failed(s, "prepare_timeout"@)
            } else {
                s
            },
            CraftPhase::Placing { prepared, craft_at } => if now < craft_at {
                s
            } else if prepared.batches == 0 {
                craft_failed(
                    s,
                    "craft_send_failed:"@ + outbound_error_text(OutboundErrorView::ZeroCraftCount),
                )
            } else {
                with_phase(
                    CraftState { conn: sent_reliably(s.conn, craft_payload(prepared.batches)), ..s },
                    t,
                    CraftPhase::Crafting { prepared, collect_at: later(now, 250) },
                )
            },
            CraftPhase::Crafting { prepared, collect_at } => if now < collect_at {
                s
            } else if prepared.produced == 0 {
                craft_failed(
                    s,
                    "output_move_send_failed:"@ + outbound_error_text(
                        OutboundErrorView::ZeroMoveCount,
                    ),
                )
            } else {
                with_phase(
                    CraftState {
                        conn: sent_reliably(
                            s.conn,
                            move_somewhere_payload(
                                prepared.produced,
                                InventoryLocation::CurrentPlayer,
                                "craftresult"@,
                                0,
                                InventoryLocation::CurrentPlayer,
                                "main"@,
                            ),
                        ),
                        ..s
                    },
                    t,
                    CraftPhase::WaitingForReceipt {
                        prepared,
                        poll_at: later(now, 200),
                        expires_at: later(now, 5000),
                    },
                )
            },
            CraftPhase::WaitingForReceipt { prepared, poll_at, expires_at } => {
                if now >= expires_at {
                    craft_failed(s, "receipt_timeout"@)
                } else if now >= poll_at {
                    with_phase(
                        CraftState {
                            conn: chat_sent(s.conn, "/bot_craft_receipt "@ + prepared.nonce),
                            ..s
                        },
                        t,
                        CraftPhase::ReceiptRequested {
                            prepared,
                            retry_at: later(now, 500),
                            expires_at,
                        },
                    )
                } else {
                    s
                }
            },
            CraftPhase::ReceiptRequested { prepared, retry_at, expires_at } => {
                if now >= expires_at {
                    craft_failed(s, "receipt_timeout"@)
                } else if now >= retry_at {
                    with_phase(
                        s,
                        t,
                        CraftPhase::WaitingForReceipt { prepared, poll_at: now, expires_at },
                    )
                } else {
                    s
                }
            },
        },
        None => s,
    }
}

fn build_craft_reply(
    t: &NativeCraftTask,
    ok: bool,
    status: &str,
    delivered: u16,
    prepared: Option<&PreparedCraft>,
) -> (text: String)
    ensures
        text@ == json_text(
            craft_reply(
                t@,
                ok,
                status@,
                delivered,
                match prepared {
                    Some(p) => Some(p@),
                    None => None,
                },
            ),
        ),
{
    let (produced, batches, grid_size, used_table): (u16, u16, u16, bool) = match prepared {
        Some(p) => (p.produced, p.batches, p.grid_size, p.used_table),
        None => (0, 0, 0, false),
    };
    let ingredients = match prepared {
        Some(p) => p.ingredients.clone(),
        None => {
            let empty: Vec<serde_json::Value> = Vec::new();
            assert(json_values(empty@) =~= seq![]);
            array_value(empty)
        },
    };
    let surplus: u16 = delivered.saturating_sub(t.requested);
    let unknown = ends_with(to_chars(status).as_slice(), "outcome_unknown");
    let error = if ok { None } else { Some(status) };
    let mut v = null_value();
    set_member(&mut v, "ok", bool_value(ok));
    set_member(&mut v, "status", str_value(status));
    set_member(&mut v, "item", str_value(t.item.as_str()));
    set_member(&mut v, "requested", int_value(t.requested as i64));
    set_member(&mut v, "produced", int_value(produced as i64));
    set_member(&mut v, "delivered", int_value(delivered as i64));
    set_member(&mut v, "batches", int_value(batches as i64));
    set_member(&mut v, "grid_size", int_value(grid_size as i64));
    set_member(&mut v, "surplus", int_value(surplus as i64));
    set_member(&mut v, "used_table", bool_value(used_table));
    set_member(&mut v, "ingredients", ingredients);
    set_member(&mut v, "outcome_unknown", bool_value(unknown));
    set_member(&mut v, "error", opt_str_value(error));
    value_text(&v)
}

pub open spec fn prepared_view(prepared: Option<&PreparedCraft>) -> Option<PreparedView> {
    match prepared {
        Some(p) => Some(p@),
        None => None,
    }
}

/// The requests once a craft has been answered.
pub open spec fn craft_answered(
    task: Option<CraftView>,
    replies: RepliesView,
    ok: bool,
    status: Seq<char>,
    delivered: u16,
    prepared: Option<PreparedView>,
) -> RepliesView {
    match task {
        Some(t) => resolved(
            replies,
            "BOT_CRAFT"@,
            json_text(craft_reply(t, ok, status, delivered, prepared)),
        ),
        None => replies,
    }
}

/// Ends a craft and answers its request.
pub fn resolve_native_craft(
    task: &mut Option<NativeCraftTask>,
    replies: &mut PendingReplies,
    ok: bool,
    status: &str,
    delivered: u16,
    prepared: Option<&PreparedCraft>,
)
    requires
        old(replies).wf(),
    ensures
        final(replies).wf(),
        *final(task) is None,
        final(replies)@ == craft_answered(
            craft_view(*old(task)),
            old(replies)@,
            ok,
            status@,
            delivered,
            prepared_view(prepared),
        ),
{
    if let Some(t) = task.take() {
        let reply = build_craft_reply(&t, ok, status, delivered, prepared);
        replies.resolve("BOT_CRAFT", reply);
    }
}

/// Ends a craft with an error.
pub fn fail_native_craft(
    task: &mut Option<NativeCraftTask>,
    conn: &mut MtpConnection,
    error: &str,
    replies: &mut PendingReplies,
)
    requires
        old(conn).wf(),
        old(replies).wf(),
        craft_wf(craft_view(*old(task))),
    ensures
        final(conn).wf(),
        final(replies).wf(),
        *final(task) is None,
        craft_state(*final(task), *final(conn), *final(replies)) == craft_failed(
            craft_state(*old(task), *old(conn), *old(replies)),
            error@,
        ),
{
    if let Some(t) = task.take() {
        let mut reported = error.to_owned();
        if t.phase.action_dispatched() && !ends_with(
            to_chars(error).as_slice(),
            "outcome_unknown",
        ) {
            reported.append("_outcome_unknown");
        }
        let prepared = craft_phase_prepared(&t.phase);
        if let Some(p) = prepared {
            clean_native_craft_grid(conn, p);
        }
        if let Some(nonce) = craft_phase_nonce(&t.phase) {
            let mut text = "/bot_craft_cancel ".to_owned();
            text.append(nonce);
            conn.send_chat_message(text.as_str());
        }
        let reply = build_craft_reply(&t, false, reported.as_str(), 0, prepared);
        replies.resolve("BOT_CRAFT", reply);
    }
}

/// Gives a craft up.
pub fn cancel_native_craft(
    task: &mut Option<NativeCraftTask>,
    conn: &mut MtpConnection,
    replies: &mut PendingReplies,
)
    requires
        old(conn).wf(),
        old(replies).wf(),
        craft_wf(craft_view(*old(task))),
    ensures
        final(conn).wf(),
        final(replies).wf(),
        *final(task) is None,
        craft_state(*final(task), *final(conn), *final(replies)) == craft_failed(
            craft_state(*old(task), *old(conn), *old(replies)),
            "cancelled"@,
        ),
{
    fail_native_craft(task, conn, "cancelled", replies)
}

/// Asks for the preparation of a craft that is ready.
pub fn continue_native_craft(task: &mut Option<NativeCraftTask>, conn: &mut MtpConnection, now: u64)
    requires
        old(conn).wf(),
    ensures
        final(conn).wf(),
        (craft_view(*final(task)), final(conn)@) == craft_begun(
            craft_view(*old(task)),
            old(conn)@,
            now,
        ),
{
    if let Some(mut t) = task.take() {
        let ready = match t.phase {
            NativeCraftPhase::Ready => true,
            _ => false,
        };
        if ready {
            let mut nonce = "craft-".to_owned();
            push_hex(&mut nonce, t.id);
            let mut text = "/bot_craft_prepare ".to_owned();
            text.append(nonce.as_str());
            text.append(" ");
            text.append(t.item.as_str());
            text.append(" ");
            push_dec(&mut text, t.requested as i64);
            conn.send_chat_message(text.as_str());
            t.phase = NativeCraftPhase::Preparing { nonce, deadline: after_ms(now, 4000) };
        }
        *task = Some(t);
    }
}

fn parse_grid_move(v: &serde_json::Value, grid_size: u16) -> (m: Option<CraftGridMove>)
    requires
        grid_size > 0,
    ensures
        m == grid_move(json_value(*v), grid_size),
{
    let player_slot: u16 = bounded_json_u16(v, "player_slot", 0, u16::MAX)?;
    let craft_slot: u16 = bounded_json_u16(v, "craft_slot", 0, grid_size - 1)?;
    let count: u16 = bounded_json_u16(v, "count", 1, 99)?;
    Some(CraftGridMove { player_slot, craft_slot, count })
}

proof fn grid_moves_wf(items: Seq<JsonValue>, grid_size: u16)
    requires
        grid_size > 0,
    ensures
        forall|i: int|
            0 <= i < grid_moves(items, grid_size).len() ==> (#[trigger] grid_moves(
                items,
                grid_size,
            )[i]).craft_slot < grid_size && grid_moves(items, grid_size)[i].count > 0,
    decreases items.len(),
{
    if items.len() > 0 {
        grid_moves_wf(items.drop_last(), grid_size);
        let before = grid_moves(items.drop_last(), grid_size);
        let all = grid_moves(items, grid_size);
        assert forall|i: int| 0 <= i < all.len() implies (#[trigger] all[i]).craft_slot < grid_size
            && all[i].count > 0 by {
            if i < before.len() {
                assert(all[i] == before[i]);
            } else {
                assert(Some(all[i]) == grid_move(items.last(), grid_size));
            }
        }
    }
}

/// The well-formed ingredients of a reply, and how many it lists.
fn parse_grid_moves(v: &serde_json::Value, grid_size: u16) -> (r: (Vec<CraftGridMove>, usize))
    requires
        grid_size > 0,
    ensures
        r.0@ == grid_moves(move_items(json_value(*v)), grid_size),
        r.1 == move_items(json_value(*v)).len(),
{
    let mut moves: Vec<CraftGridMove> = Vec::new();
    let found = match member(v, "moves") {
        Some(m) => m.as_array(),
        None => None,
    };
    match found {
        Some(items) => {
            let ghost all = json_values(items@);
            let mut i: usize = 0;
            assert(moves@ =~= grid_moves(all.take(0), grid_size));
            while i < items.len()
                invariant
                    i <= items.len(),
                    grid_size > 0,
                    all == json_values(items@),
                    moves@ == grid_moves(all.take(i as int), grid_size),
                decreases items.len() - i,
            {
                assert(all.take(i + 1).drop_last() =~= all.take(i as int));
                assert(all.take(i + 1).last() == json_value(items@[i as int]));
                if let Some(m) = parse_grid_move(&items[i], grid_size) {
                    moves.push(m);
                }
                i = i + 1;
            }
            assert(all.take(i as int) =~= all);
            (moves, items.len())
        },
        None => {
            assert(moves@ =~= grid_moves(seq![], grid_size));
            (moves, 0)
        },
    }
}

fn take_prepared_craft(t: &NativeCraftTask, nonce: String, v: &serde_json::Value) -> (r: Result<
    PreparedCraft,
    String,
>)
    ensures
        match r {
            Ok(p) => prepared_craft(t@, nonce@, json_value(*v)) == Ok::<PreparedView, Seq<char>>(
                p@,
            ) && prepared_wf(p@),
            Err(e) => prepared_craft(t@, nonce@, json_value(*v)) == Err::<PreparedView, Seq<char>>(
                e@,
            ),
        },
{
    if !bool_member_is_true(v, "ok") {
        return Err(get_status(v, "prepare_failed"));
    }
    if !str_member_is(v, "item", t.item.as_str()) {
        return Err("prepare_mismatch".to_owned());
    }
    let requested: u16 = match bounded_json_u16(v, "requested", 1, 64) {
        Some(n) => n,
        None => t.requested,
    };
    let batches = bounded_json_u16(v, "batches", 1, 8);
    let produced = match bounded_json_u16(v, "produced", requested, 64) {
        Some(n) => Some(n),
        None => bounded_json_u16(v, "output_count", requested, 64),
    };
    let grid_size = bounded_json_u16(v, "grid_size", 4, 9);
    let (batches, produced, grid_size): (u16, u16, u16) = match (batches, produced, grid_size) {
        (Some(batches), Some(produced), Some(grid_size)) => (batches, produced, grid_size),
        _ => return Err("prepare_invalid_counts".to_owned()),
    };
    if grid_size != 4 && grid_size != 9 {
        return Err("prepare_invalid_grid_size".to_owned());
    }
    if requested != t.requested {
        return Err("prepare_requested_count_mismatch".to_owned());
    }
    let (moves, listed) = parse_grid_moves(v, grid_size);
    if moves.len() == 0 || moves.len() != listed || moves.len() > 36 {
        return Err("prepare_invalid_moves".to_owned());
    }
    let used_table = match member(v, "used_table") {
        Some(m) => match m.as_bool() {
            Some(b) => b,
            None => grid_size == 9,
        },
        None => grid_size == 9,
    };
    if grid_size == 9 && !used_table {
        return Err("crafting_table_required".to_owned());
    }
    let ingredients = match member(v, "ingredients") {
        Some(m) => m.clone(),
        None => {
            let empty: Vec<serde_json::Value> = Vec::new();
            assert(json_values(empty@) =~= seq![]);
            array_value(empty)
        },
    };
    proof {
        grid_moves_wf(move_items(json_value(*v)), grid_size);
    }
    Ok(
        PreparedCraft {
            nonce,
            item: t.item.clone(),
            requested,
            batches,
            produced,
            grid_size,
            used_table,
            moves,
            ingredients,
        },
    )
}

/// Moves the ingredients into the grid.
fn place_ingredients(conn: &mut MtpConnection, prepared: &PreparedCraft)
    requires
        old(conn).wf(),
        prepared_wf(prepared@),
    ensures
        final(conn).wf(),
        final(conn)@ == ingredients_placed(old(conn)@, prepared@.moves),
{
    proof {
        list_names_are_valid();
    }
    let ghost moves = prepared.moves@;
    let mut i: usize = 0;
    assert(moves.take(0) =~= Seq::<CraftGridMove>::empty());
    while i < prepared.moves.len()
        invariant
            i <= prepared.moves.len(),
            moves == prepared.moves@,
            conn.wf(),
            prepared_wf(prepared@),
            valid_list_name("main"@),
            valid_list_name("craft"@),
            conn@ == ingredients_placed(old(conn)@, moves.take(i as int)),
        decreases prepared.moves.len() - i,
    {
        let m: CraftGridMove = prepared.moves[i];
        assert(prepared@.moves[i as int].count > 0);
        let sent = conn.send_inventory_move(
            m.count,
            InventoryLocation::CurrentPlayer,
            "main",
            m.player_slot,
            InventoryLocation::CurrentPlayer,
            "craft",
            m.craft_slot,
        );
        assert(moves.take(i + 1).drop_last() =~= moves.take(i as int));
        i = i + 1;
    }
    assert(moves.take(i as int) =~= moves);
}

/// Takes the reply to a preparation.
pub fn apply_craft_prepare(
    v: &serde_json::Value,
    task: &mut Option<NativeCraftTask>,
    conn: &mut MtpConnection,
    replies: &mut PendingReplies,
    now: u64,
)
    requires
        old(conn).wf(),
        old(replies).wf(),
        craft_wf(craft_view(*old(task))),
    ensures
        final(conn).wf(),
        final(replies).wf(),
        craft_wf(craft_view(*final(task))),
        craft_state(*final(task), *final(conn), *final(replies)) == craft_prepared(
            craft_state(*old(task), *old(conn), *old(replies)),
            json_value(*v),
            now,
        ),
{
    let mut t = match task.take() {
        Some(t) => t,
        None => return,
    };
    let nonce = match &t.phase {
        NativeCraftPhase::Preparing { nonce, .. } => nonce.clone(),
        _ => {
            *task = Some(t);
            return;
        },
    };
    if !chest_reply_has_nonce(v, nonce.as_str()) {
        *task = Some(t);
        return;
    }
    match take_prepared_craft(&t, nonce, v) {
        Ok(prepared) => {
            place_ingredients(conn, &prepared);
            t.phase = NativeCraftPhase::Placing { prepared, craft_at: after_ms(now, 250) };
            *task = Some(t);
        },
        Err(error) => {
            *task = Some(t);
            fail_native_craft(task, conn, error.as_str(), replies);
        },
    }
}

/// Takes the text of a reply to a preparation.
pub fn handle_native_craft_prepare(
    payload: &str,
    task: &mut Option<NativeCraftTask>,
    conn: &mut MtpConnection,
    replies: &mut PendingReplies,
    now: u64,
)
    requires
        old(conn).wf(),
        old(replies).wf(),
        craft_wf(craft_view(*old(task))),
    ensures
        final(conn).wf(),
        final(replies).wf(),
        craft_wf(craft_view(*final(task))),
        craft_state(*final(task), *final(conn), *final(replies)) == match parsed_json(payload@) {
            Ok(v) => craft_prepared(craft_state(*old(task), *old(conn), *old(replies)), v, now),
            Err(e) => craft_failed(
                craft_state(*old(task), *old(conn), *old(replies)),
                "invalid_prepare_response:"@ + e,
            ),
        },
{
    match parse_value(payload) {
        Ok(v) => apply_craft_prepare(&v, task, conn, replies, now),
        Err(e) => {
            let mut error = "invalid_prepare_response:".to_owned();
            error.append(e.as_str());
            fail_native_craft(task, conn, error.as_str(), replies);
        },
    }
}

/// Takes a receipt.
pub fn apply_craft_receipt(
    v: &serde_json::Value,
    task: &mut Option<NativeCraftTask>,
    conn: &mut MtpConnection,
    replies: &mut PendingReplies,
    now: u64,
)
    requires
        old(conn).wf(),
        old(replies).wf(),
        craft_wf(craft_view(*old(task))),
    ensures
        final(conn).wf(),
        final(replies).wf(),
        craft_wf(craft_view(*final(task))),
        craft_state(*final(task), *final(conn), *final(replies)) == craft_receipt(
            craft_state(*old(task), *old(conn), *old(replies)),
            json_value(*v),
            now,
        ),
{
    let NativeCraftTask { id, item, requested, phase } = match task.take() {
        Some(t) => t,
        None => return,
    };
    let (prepared, retry_at, expires_at) = match phase {
        NativeCraftPhase::ReceiptRequested { prepared, retry_at, expires_at } => (
            prepared,
            retry_at,
            expires_at,
        ),
        _ => {
            *task = Some(NativeCraftTask { id, item, requested, phase });
            return;
        },
    };
    if chest_reply_has_nonce(v, prepared.nonce.as_str()) && str_member_is(v, "status", "pending") {
        let phase = NativeCraftPhase::WaitingForReceipt {
            prepared,
            poll_at: after_ms(now, 200),
            expires_at,
        };
        *task = Some(NativeCraftTask { id, item, requested, phase });
        return;
    }
    if !chest_reply_has_nonce(v, prepared.nonce.as_str()) {
        let phase = NativeCraftPhase::ReceiptRequested { prepared, retry_at, expires_at };
        *task = Some(NativeCraftTask { id, item, requested, phase });
        return;
    }
    let error: Option<String> = if !bool_member_is_true(v, "ok") {
        Some(get_status(v, "receipt_failed"))
    } else if !str_member_is(v, "item", prepared.item.as_str()) {
        Some("receipt_mismatch".to_owned())
    } else {
        None
    };
    if let Some(error) = error {
        let phase = NativeCraftPhase::ReceiptRequested { prepared, retry_at, expires_at };
        *task = Some(NativeCraftTask { id, item, requested, phase });
        fail_native_craft(task, conn, error.as_str(), replies);
        return;
    }
    let delivered = match bounded_json_u16(v, "delivered", 1, prepared.produced) {
        Some(n) => Some(n),
        None => bounded_json_u16(v, "moved", 1, prepared.produced),
    };
    match delivered {
        Some(delivered) => {
            let ok = delivered >= prepared.requested;
            let status = if ok { "crafted" } else { "partially_crafted" };
            let t = NativeCraftTask { id, item, requested, phase: NativeCraftPhase::Ready };
            let reply = build_craft_reply(&t, ok, status, delivered, Some(&prepared));
            replies.resolve("BOT_CRAFT", reply);
        },
        None => {
            let phase = NativeCraftPhase::ReceiptRequested { prepared, retry_at, expires_at };
            *task = Some(NativeCraftTask { id, item, requested, phase });
            fail_native_craft(task, conn, "receipt_invalid_delivered_count", replies);
        },
    }
}

/// Takes the text of a receipt.
pub fn handle_native_craft_receipt(
    payload: &str,
    task: &mut Option<NativeCraftTask>,
    conn: &mut MtpConnection,
    replies: &mut PendingReplies,
    now: u64,
)
    requires
        old(conn).wf(),
        old(replies).wf(),
        craft_wf(craft_view(*old(task))),
    ensures
        final(conn).wf(),
        final(replies).wf(),
        craft_wf(craft_view(*final(task))),
        craft_state(*final(task), *final(conn), *final(replies)) == match parsed_json(payload@) {
            Ok(v) => craft_receipt(craft_state(*old(task), *old(conn), *old(replies)), v, now),
            Err(e) => craft_failed(
                craft_state(*old(task), *old(conn), *old(replies)),
                "invalid_receipt_response:"@ + e,
            ),
        },
{
    match parse_value(payload) {
        Ok(v) => apply_craft_receipt(&v, task, conn, replies, now),
        Err(e) => {
            let mut error = "invalid_receipt_response:".to_owned();
            error.append(e.as_str());
            fail_native_craft(task, conn, error.as_str(), replies);
        },
    }
}

/// Crafts, collects and polls when the time has come, and watches the deadlines.
pub fn advance_native_craft(
    task: &mut Option<NativeCraftTask>,
    conn: &mut MtpConnection,
    replies: &mut PendingReplies,
    now: u64,
)
    requires
        old(conn).wf(),
        old(replies).wf(),
        craft_wf(craft_view(*old(task))),
    ensures
        final(conn).wf(),
        final(replies).wf(),
        craft_wf(craft_view(*final(task))),
        craft_state(*final(task), *final(conn), *final(replies)) == craft_advanced(
            craft_state(*old(task), *old(conn), *old(replies)),
            now,
        ),
{
    proof {
        list_names_are_valid();
    }
    let NativeCraftTask { id, item, requested, phase } = match task.take() {
        Some(t) => t,
        None => return,
    };
    let mut failure: Option<String> = None;
    let next = match phase {
        NativeCraftPhase::Ready => NativeCraftPhase::Ready,
        NativeCraftPhase::Preparing { nonce, deadline } => {
            if now >= deadline {
                failure = Some("prepare_timeout".to_owned());
            }
            NativeCraftPhase::Preparing { nonce, deadline }
        },
        NativeCraftPhase::Placing { prepared, craft_at } => {
            if now < craft_at {
                NativeCraftPhase::Placing { prepared, craft_at }
            } else {
                match conn.send_inventory_craft(prepared.batches) {
                    Ok(()) => NativeCraftPhase::Crafting {
                        prepared,
                        collect_at: after_ms(now, 250),
                    },
                    Err(e) => {
                        let mut text = "craft_send_failed:".to_owned();
                        text.append(e.message().as_str());
                        failure = Some(text);
                        NativeCraftPhase::Placing { prepared, craft_at }
                    },
                }
            }
        },
        NativeCraftPhase::Crafting { prepared, collect_at } => {
            if now < collect_at {
                NativeCraftPhase::Crafting { prepared, collect_at }
            } else {
                match conn.send_inventory_move_somewhere(
                    prepared.produced,
                    InventoryLocation::CurrentPlayer,
                    "craftresult",
                    0,
                    InventoryLocation::CurrentPlayer,
                    "main",
                ) {
                    Ok(()) => NativeCraftPhase::WaitingForReceipt {
                        prepared,
                        poll_at: after_ms(now, 200),
                        expires_at: after_ms(now, 5000),
                    },
                    Err(e) => {
                        let mut text = "output_move_send_failed:".to_owned();
                        text.append(e.message().as_str());
                        failure = Some(text);
                        NativeCraftPhase::Crafting { prepared, collect_at }
                    },
                }
            }
        },
        NativeCraftPhase::WaitingForReceipt { prepared, poll_at, expires_at } => {
            if now >= expires_at {
                failure = Some("receipt_timeout".to_owned());
                NativeCraftPhase::WaitingForReceipt { prepared, poll_at, expires_at }
            } else if now >= poll_at {
                let mut text = "/bot_craft_receipt ".to_owned();
                text.append(prepared.nonce.as_str());
                conn.send_chat_message(text.as_str());
                NativeCraftPhase::ReceiptRequested {
                    prepared,
                    retry_at: after_ms(now, 500),
                    expires_at,
                }
            } else {
                NativeCraftPhase::WaitingForReceipt { prepared, poll_at, expires_at }
            }
        },
        NativeCraftPhase::ReceiptRequested { prepared, retry_at, expires_at } => {
            if now >= expires_at {
                failure = Some("receipt_timeout".to_owned());
                NativeCraftPhase::ReceiptRequested { prepared, retry_at, expires_at }
            } else if now >= retry_at {
                NativeCraftPhase::WaitingForReceipt { prepared, poll_at: now, expires_at }
            } else {
                NativeCraftPhase::ReceiptRequested { prepared, retry_at, expires_at }
            }
        },
    };
    *task = Some(NativeCraftTask { id, item, requested, phase: next });
    if let Some(error) = failure {
        fail_native_craft(task, conn, error.as_str(), replies);
    }
}

/// What a datagram of a craft in the given phase was for.
pub open spec fn send_failure(phase: CraftPhase) -> Seq<char> {
    match phase {
        CraftPhase::Ready => "prepare_send_failed:"@,
        CraftPhase::Preparing { .. } => "prepare_send_failed:"@,
        CraftPhase::Placing { .. } => "ingredient_move_send_failed:"@,
        CraftPhase::Crafting { .. } => "craft_send_failed:"@,
        CraftPhase::WaitingForReceipt { .. } => "output_move_send_failed:"@,
        CraftPhase::ReceiptRequested { .. } => "receipt_send_failed:"@,
    }
}

/// The datagrams that brought a craft into its phase could not be sent. The server
/// mod has not heard of a craft whose preparation was not asked for, and a craft that
/// was not sent has no unknown outcome.
pub open spec fn craft_send_failed(s: CraftState, error: Seq<char>) -> CraftState {
    match s.task {
        Some(t) => craft_failed(
            match t.phase {
                CraftPhase::Preparing { .. } => with_phase(s, t, CraftPhase::Ready),
                CraftPhase::Crafting { prepared, collect_at } => with_phase(
                    s,
                    t,
                    CraftPhase::Placing { prepared, craft_at: collect_at },
                ),
                _ => s,
            },
            send_failure(t.phase) + error,
        ),
        None => s,
    }
}

/// Ends a craft whose last datagrams could not be sent.
pub fn fail_craft_send(
    task: &mut Option<NativeCraftTask>,
    conn: &mut MtpConnection,
    error: &str,
    replies: &mut PendingReplies,
)
    requires
        old(conn).wf(),
        old(replies).wf(),
        craft_wf(craft_view(*old(task))),
    ensures
        final(conn).wf(),
        final(replies).wf(),
        *final(task) is None,
        craft_state(*final(task), *final(conn), *final(replies)) == craft_send_failed(
            craft_state(*old(task), *old(conn), *old(replies)),
            error@,
        ),
{
    let NativeCraftTask { id, item, requested, phase } = match task.take() {
        Some(t) => t,
        None => return,
    };
    let mut text = match &phase {
        NativeCraftPhase::Ready => "prepare_send_failed:".to_owned(),
        NativeCraftPhase::Preparing { .. } => "prepare_send_failed:".to_owned(),
        NativeCraftPhase::Placing { .. } => "ingredient_move_send_failed:".to_owned(),
        NativeCraftPhase::Crafting { .. } => "craft_send_failed:".to_owned(),
        NativeCraftPhase::WaitingForReceipt { .. } => "output_move_send_failed:".to_owned(),
        NativeCraftPhase::ReceiptRequested { .. } => "receipt_send_failed:".to_owned(),
    };
    text.append(error);
    let phase = match phase {
        NativeCraftPhase::Preparing { .. } => NativeCraftPhase::Ready,
        NativeCraftPhase::Crafting { prepared, collect_at } => NativeCraftPhase::Placing {
            prepared,
            craft_at: collect_at,
        },
        other => other,
    };
    *task = Some(NativeCraftTask { id, item, requested, phase });
    fail_native_craft(task, conn, text.as_str(), replies);
}

/// The slots that are emptied when a craft is withdrawn are those that ingredients
/// went into, each once and in order.
pub proof fn withdrawn_slots_are_the_used_ones(moves: Seq<CraftGridMove>, limit: nat)
    requires
        limit <= 0x1_0000,
    ensures
        forall|i: int, j: int|
            0 <= i < j < used_slots(moves, limit).len() ==> (#[trigger] used_slots(moves, limit)[i])
                < (#[trigger] used_slots(moves, limit)[j]),
        forall|slot: u16| #[trigger]
            used_slots(moves, limit).contains(slot) <==> slot < limit && slot_used(
                moves,
                slot as int,
            ),
    decreases limit,
{
    if limit > 0 {
        let top = (limit - 1) as u16;
        let before = used_slots(moves, (limit - 1) as nat);
        let all = used_slots(moves, limit);
        withdrawn_slots_are_the_used_ones(moves, (limit - 1) as nat);
        assert forall|i: int, j: int| 0 <= i < j < all.len() implies (#[trigger] all[i]) < (
        #[trigger] all[j]) by {
            if j == before.len() {
                assert(before.contains(before[i]));
            }
        }
        assert forall|slot: u16| #[trigger] all.contains(slot) <==> slot < limit && slot_used(
            moves,
            slot as int,
        ) by {
            if all.contains(slot) {
                let i = choose|i: int| 0 <= i < all.len() && all[i] == slot;
                if i < before.len() {
                    assert(before[i] == slot);
                    assert(before.contains(slot));
                }
            }
            if slot < limit && slot_used(moves, slot as int) {
                if slot == top {
                    assert(all[before.len() as int] == slot);
                } else {
                    assert(before.contains(slot));
                    let i = choose|i: int| 0 <= i < before.len() && before[i] == slot;
                    assert(all[i] == slot);
                }
            }
        }
    }
}

/// A reply that does not bear the current nonce changes nothing.
pub proof fn stale_craft_replies_are_ignored(s: CraftState, v: JsonValue, now: u64)
    requires
        match s.task {
            Some(t) => match craft_nonce(t.phase) {
                Some(nonce) => !has_nonce(v, nonce),
                None => true,
            },
            None => true,
        },
    ensures
        craft_prepared(s, v, now) == s,
        craft_receipt(s, v, now) == s,
{
}

proof fn craft_reply_members(
    t: CraftView,
    ok: bool,
    status: Seq<char>,
    delivered: u16,
    prepared: Option<PreparedView>,
)
    ensures
        ({
            let r = craft_reply(t, ok, status, delivered, prepared);
            &&& bool_member(r, "ok"@) == Some(ok)
            &&& bool_member(r, "outcome_unknown"@) == Some(is_unknown_outcome(status))
        }),
{
    reveal_strlit("ok");
    reveal_strlit("status");
    reveal_strlit("item");
    reveal_strlit("requested");
    reveal_strlit("produced");
    reveal_strlit("delivered");
    reveal_strlit("batches");
    reveal_strlit("grid_size");
    reveal_strlit("surplus");
    reveal_strlit("used_table");
    reveal_strlit("ingredients");
    reveal_strlit("outcome_unknown");
    reveal_strlit("error");
    assert("ok"@.len() == 2 && "status"@.len() == 6 && "item"@.len() == 4);
    assert("requested"@.len() == 9 && "produced"@.len() == 8 && "delivered"@.len() == 9);
    assert("batches"@.len() == 7 && "grid_size"@.len() == 9 && "surplus"@.len() == 7);
    assert("used_table"@.len() == 10 && "ingredients"@.len() == 11);
    assert("outcome_unknown"@.len() == 15 && "error"@.len() == 5);
}

/// Where a craft was sent and then fails or is given up, the request is told that
/// it failed and that the outcome is not known.
pub proof fn dispatched_craft_reports_unknown_outcome(
    s: CraftState,
    t: CraftView,
    error: Seq<char>,
)
    requires
        s.task == Some(t),
        craft_dispatched(t.phase),
    ensures
        ({
            let e = craft_error(t, error);
            let r = craft_reply(t, false, e, 0, phase_prepared(t.phase));
            &&& craft_failed(s, error).task is None
            &&& craft_failed(s, error).replies == resolved(
                s.replies,
                "BOT_CRAFT"@,
                json_text(r),
            )
            &&& bool_member(r, "ok"@) == Some(false)
            &&& bool_member(r, "outcome_unknown"@) == Some(true)
        }),
{
    let e = craft_error(t, error);
    if !is_unknown_outcome(error) {
        reveal_strlit("_outcome_unknown");
        reveal_strlit("outcome_unknown");
        let tail = "outcome_unknown"@;
        assert(e.skip(e.len() - tail.len()) =~= tail);
    }
    craft_reply_members(t, false, e, 0, phase_prepared(t.phase));
}

/// Crafts with different numbers bear different nonces.
pub proof fn craft_nonces_are_distinct(a: u64, b: u64)
    requires
        a != b,
    ensures
        nonce_for(a) != nonce_for(b),
{
    let head = "craft-"@;
    assert(hex(a as int) =~= nonce_for(a).skip(head.len() as int));
    assert(hex(b as int) =~= nonce_for(b).skip(head.len() as int));
    hex_digits_injective(a as nat, b as nat);
}

/// Nobody waits for the craft's reply any more, and whoever listened for it has got one.
pub open spec fn craft_was_answered(before: CraftState, after: CraftState) -> bool {
    let tag = "BOT_CRAFT"@;
    &&& !after.replies.waiting.dom().contains(tag)
    &&& listened_for(before.replies, tag) ==> after.replies.delivered.len()
        == before.replies.delivered.len() + 1 && after.replies.delivered.last().0
        == before.replies.waiting[tag].ticket
}

/// Whenever a craft ends, the request that waits for it is answered.
pub proof fn ended_craft_is_answered(
    s: CraftState,
    v: JsonValue,
    error: Seq<char>,
    now: u64,
)
    requires
        s.task is Some,
    ensures
        craft_prepared(s, v, now).task is None ==> craft_was_answered(s, craft_prepared(s, v, now)),
        craft_receipt(s, v, now).task is None ==> craft_was_answered(s, craft_receipt(s, v, now)),
        craft_advanced(s, now).task is None ==> craft_was_answered(s, craft_advanced(s, now)),
        craft_failed(s, error).task is None,
        craft_was_answered(s, craft_failed(s, error)),
{
}

proof fn grid_moves_member_by_member(items: Seq<JsonValue>, grid_size: u16)
    requires
        4 <= grid_size <= 9,
    ensures
        grid_moves(items, grid_size).len() <= items.len(),
        grid_moves(items, grid_size).len() == items.len() ==> forall|i: int|
            0 <= i < items.len() ==> {
                let m = #[trigger] grid_moves(items, grid_size)[i];
                &&& u64_member(items[i], "player_slot"@) == Some(m.player_slot as u64)
                &&& u64_member(items[i], "craft_slot"@) == Some(m.craft_slot as u64)
                &&& u64_member(items[i], "count"@) == Some(m.count as u64)
                &&& m.craft_slot < grid_size
                &&& 1 <= m.count <= 99
            },
        grid_moves(items, grid_size).len() != items.len() ==> exists|i: int|
            0 <= i < items.len() && grid_move(#[trigger] items[i], grid_size) is None,
    decreases items.len(),
{
    if items.len() > 0 {
        let before = items.drop_last();
        grid_moves_member_by_member(before, grid_size);
        let moves = grid_moves(items, grid_size);
        if moves.len() == items.len() {
            assert(grid_moves(before, grid_size).len() == before.len());
            assert forall|i: int| 0 <= i < items.len() implies {
                let m = #[trigger] moves[i];
                &&& u64_member(items[i], "player_slot"@) == Some(m.player_slot as u64)
                &&& u64_member(items[i], "craft_slot"@) == Some(m.craft_slot as u64)
                &&& u64_member(items[i], "count"@) == Some(m.count as u64)
                &&& m.craft_slot < grid_size
                &&& 1 <= m.count <= 99
            } by {
                if i < before.len() {
                    assert(moves[i] == grid_moves(before, grid_size)[i]);
                    assert(items[i] == before[i]);
                }
            }
        } else if grid_move(items.last(), grid_size) is None {
            assert(grid_move(items[items.len() - 1], grid_size) is None);
        } else {
            let i = choose|i: int|
                0 <= i < before.len() && grid_move(#[trigger] before[i], grid_size) is None;
            assert(items[i] == before[i]);
        }
    }
}

/// A craft that is accepted is the one that the reply describes, member by member: its
/// batches, what it produces, the grid, and every ingredient in the reply's order.
pub proof fn accepted_craft_is_as_the_reply_says(t: CraftView, nonce: Seq<char>, v: JsonValue)
    ensures
        match prepared_craft(t, nonce, v) {
            Ok(p) => {
                &&& bool_member(v, "ok"@) == Some(true)
                &&& str_member(v, "item"@) == Some(t.item)
                &&& p.nonce == nonce && p.item == t.item && p.requested == t.requested
                &&& u64_member(v, "batches"@) == Some(p.batches as u64)
                &&& 1 <= p.batches <= 8
                &&& u64_member(v, "produced"@) == Some(p.produced as u64) || u64_member(
                    v,
                    "output_count"@,
                ) == Some(p.produced as u64)
                &&& u64_member(v, "produced"@) is Some && t.requested <= u64_member(
                    v,
                    "produced"@,
                )->0 <= 64 ==> u64_member(v, "produced"@) == Some(p.produced as u64)
                &&& t.requested <= p.produced <= 64
                &&& u64_member(v, "grid_size"@) == Some(p.grid_size as u64)
                &&& p.grid_size == 4 || p.grid_size == 9
                &&& p.grid_size == 9 ==> p.used_table
                &&& bool_member(v, "used_table"@) is Some ==> bool_member(v, "used_table"@)
                    == Some(p.used_table)
                &&& bool_member(v, "used_table"@) is None ==> p.used_table == (p.grid_size == 9)
                &&& member_of(v, "moves"@) is Some
                &&& array_of(member_of(v, "moves"@)->0) is Some
                &&& ({
                    let items = array_of(member_of(v, "moves"@)->0)->0;
                    &&& 1 <= items.len() <= 36
                    &&& p.moves.len() == items.len()
                    &&& forall|i: int|
                        0 <= i < items.len() ==> {
                            let m = #[trigger] p.moves[i];
                            &&& u64_member(items[i], "player_slot"@) == Some(m.player_slot as u64)
                            &&& u64_member(items[i], "craft_slot"@) == Some(m.craft_slot as u64)
                            &&& u64_member(items[i], "count"@) == Some(m.count as u64)
                            &&& m.craft_slot < p.grid_size
                            &&& 1 <= m.count <= 99
                        }
                })
                &&& member_of(v, "ingredients"@) is Some ==> member_of(v, "ingredients"@) == Some(
                    p.ingredients,
                )
            },
            Err(reason) => {
                ||| bool_member(v, "ok"@) != Some(true) && reason == if str_member(
                    v,
                    "status"@,
                ) is Some {
                    str_member(v, "status"@)->0
                } else {
                    "prepare_failed"@
                }
                ||| bool_member(v, "ok"@) == Some(true) && {
                    ||| str_member(v, "item"@) != Some(t.item) && reason == "prepare_mismatch"@
                    ||| str_member(v, "item"@) == Some(t.item) && {
                        ||| reason == "prepare_invalid_counts"@
                        ||| reason == "prepare_invalid_grid_size"@
                        ||| reason == "prepare_requested_count_mismatch"@
                        ||| reason == "prepare_invalid_moves"@
                        ||| reason == "crafting_table_required"@
                    }
                }
            },
        },
{
    if let Ok(p) = prepared_craft(t, nonce, v) {
        grid_moves_member_by_member(move_items(v), p.grid_size);
    }
}

/// A reply is accepted wherever it is right: a craft of the item and number that were
/// asked for, in one to eight batches, that produces enough, on a grid of four slots or,
/// at a table, of nine, with up to thirty-six ingredients that fit the grid.
pub proof fn right_craft_is_accepted(t: CraftView, nonce: Seq<char>, v: JsonValue)
    requires
        bool_member(v, "ok"@) == Some(true),
        str_member(v, "item"@) == Some(t.item),
        u64_member(v, "requested"@) == Some(t.requested as u64),
        1 <= t.requested <= 64,
        u64_member(v, "batches"@) is Some,
        1 <= u64_member(v, "batches"@)->0 <= 8,
        u64_member(v, "produced"@) is Some,
        t.requested <= u64_member(v, "produced"@)->0 <= 64,
        u64_member(v, "grid_size"@) == Some(4u64) || (u64_member(v, "grid_size"@) == Some(9u64)
            && bool_member(v, "used_table"@) != Some(false)),
        member_of(v, "moves"@) is Some,
        array_of(member_of(v, "moves"@)->0) is Some,
        1 <= array_of(member_of(v, "moves"@)->0)->0.len() <= 36,
        forall|i: int|
            0 <= i < array_of(member_of(v, "moves"@)->0)->0.len() ==> {
                let m = #[trigger] array_of(member_of(v, "moves"@)->0)->0[i];
                &&& u64_member(m, "player_slot"@) is Some
                &&& u64_member(m, "player_slot"@)->0 <= 65535
                &&& u64_member(m, "craft_slot"@) is Some
                &&& u64_member(m, "craft_slot"@)->0 < u64_member(v, "grid_size"@)->0
                &&& u64_member(m, "count"@) is Some
                &&& 1 <= u64_member(m, "count"@)->0 <= 99
            },
    ensures
        prepared_craft(t, nonce, v) is Ok,
{
    let grid_size = u64_member(v, "grid_size"@)->0 as u16;
    grid_moves_member_by_member(move_items(v), grid_size);
    let items = move_items(v);
    if grid_moves(items, grid_size).len() != items.len() {
        let i = choose|i: int|
            0 <= i < items.len() && grid_move(#[trigger] items[i], grid_size) is None;
        assert(bounded_member(items[i], "player_slot"@, 0, u16::MAX) is Some);
        assert(bounded_member(items[i], "craft_slot"@, 0, (grid_size - 1) as u16) is Some);
        assert(bounded_member(items[i], "count"@, 1, 99) is Some);
    }
}

/// The ingredients are placed one after the other, from the first to the last, each with
/// its own count from its own slot of the player into its own slot of the grid.
pub proof fn ingredients_are_placed_in_order(
    conn: ConnectionView,
    first: CraftGridMove,
    rest: Seq<CraftGridMove>,
)
    ensures
        ingredients_placed(conn, seq![]) == conn,
        ingredients_placed(conn, seq![first] + rest) == ingredients_placed(
            sent_reliably(
                conn,
                move_payload(
                    first.count,
                    InventoryLocation::CurrentPlayer,
                    "main"@,
                    first.player_slot,
                    InventoryLocation::CurrentPlayer,
                    "craft"@,
                    first.craft_slot,
                ),
            ),
            rest,
        ),
    decreases rest.len(),
{
    let all = seq![first] + rest;
    if rest.len() == 0 {
        assert(all.drop_last() =~= seq![]);
        reveal_with_fuel(ingredients_placed, 2);
    } else {
        ingredients_are_placed_in_order(conn, first, rest.drop_last());
        assert(all.drop_last() =~= seq![first] + rest.drop_last());
        assert(all.last() == rest.last());
    }
}

/// The slots of the grid that were used are emptied one after the other into the
/// player's inventory.
pub proof fn slots_are_returned_in_order(conn: ConnectionView, first: u16, rest: Seq<u16>)
    ensures
        slots_returned(conn, seq![]) == conn,
        slots_returned(conn, seq![first] + rest) == slots_returned(
            sent_reliably(
                conn,
                move_somewhere_payload(
                    65535,
                    InventoryLocation::CurrentPlayer,
                    "craft"@,
                    first,
                    InventoryLocation::CurrentPlayer,
                    "main"@,
                ),
            ),
            rest,
        ),
    decreases rest.len(),
{
    let all = seq![first] + rest;
    if rest.len() == 0 {
        assert(all.drop_last() =~= seq![]);
        reveal_with_fuel(slots_returned, 2);
    } else {
        slots_are_returned_in_order(conn, first, rest.drop_last());
        assert(all.drop_last() =~= seq![first] + rest.drop_last());
        assert(all.last() == rest.last());
    }
}

/// From a reply that prepares a craft to the craft itself: the ingredients of the reply
/// are placed, nothing is sent for a quarter of a second, and then exactly one
/// action, the craft of as many batches as the reply says, whatever happened on
/// the connection in between.
pub proof fn craft_is_sent_for_the_batches_of_its_reply(
    s: CraftState,
    t: CraftView,
    v: JsonValue,
    between: CraftState,
    now: u64,
    at: u64,
)
    requires
        s.task == Some(t),
        t.phase is Preparing,
        str_member(v, "nonce"@) == Some(t.phase->nonce),
        prepared_craft(t, t.phase->nonce, v) is Ok,
        now + 250 <= u64::MAX,
        between.task == craft_prepared(s, v, now).task,
    ensures
        ({
            let placed = craft_prepared(s, v, now);
            let p = prepared_craft(t, t.phase->nonce, v)->Ok_0;
            let after = craft_advanced(between, at);
            &&& placed.conn == ingredients_placed(s.conn, p.moves)
            &&& placed.replies == s.replies
            &&& placed.task is Some
            &&& placed.task->0.phase is Placing
            &&& phase_prepared(placed.task->0.phase) == Some(p)
            &&& at < now + 250 ==> after == between
            &&& at >= now + 250 ==> {
                &&& after.conn == sent_reliably(
                    between.conn,
                    be16(0x31) + encode_utf8(
                        "Craft "@ + dec(u64_member(v, "batches"@)->0 as int) + " current_player"@,
                    ),
                )
                &&& after.replies == between.replies
                &&& after.task is Some
                &&& after.task->0.phase is Crafting
                &&& phase_prepared(after.task->0.phase) == Some(p)
                &&& after.task->0.id == t.id && after.task->0.item == t.item
                    && after.task->0.requested == t.requested
                &&& at + 250 <= u64::MAX ==> after.task->0.phase->collect_at == at + 250
            }
        }),
{
    accepted_craft_is_as_the_reply_says(t, t.phase->nonce, v);
    let p = prepared_craft(t, t.phase->nonce, v)->Ok_0;
    assert(u64_member(v, "batches"@)->0 == p.batches);
}

/// After the craft the output is collected: exactly as many items as the preparation
/// says are produced leave the result slot. Then the receipt is asked for by the
/// craft's own nonce, again and again until the time is up.
pub proof fn output_is_collected_and_its_receipt_asked_for(
    s: CraftState,
    t: CraftView,
    p: PreparedView,
    at: u64,
)
    requires
        s.task == Some(t),
        phase_prepared(t.phase) == Some(p),
        craft_dispatched(t.phase),
        p.produced > 0,
        at + 5000 <= u64::MAX,
    ensures
        ({
            let after = craft_advanced(s, at);
            match t.phase {
                CraftPhase::Crafting { collect_at, .. } => if at < collect_at {
                    after == s
                } else {
                    &&& after.conn == sent_reliably(
                        s.conn,
                        move_somewhere_payload(
                            p.produced,
                            InventoryLocation::CurrentPlayer,
                            "craftresult"@,
                            0,
                            InventoryLocation::CurrentPlayer,
                            "main"@,
                        ),
                    )
                    &&& after.replies == s.replies
                    &&& after.task == Some(
                        CraftView {
                            phase: CraftPhase::WaitingForReceipt {
                                prepared: p,
                                poll_at: (at + 200) as u64,
                                expires_at: (at + 5000) as u64,
                            },
                            ..t
                        },
                    )
                },
                CraftPhase::WaitingForReceipt { poll_at, expires_at, .. } => at < expires_at
                    ==> if at < poll_at {
                    after == s
                } else {
                    &&& after.conn == chat_sent(s.conn, "/bot_craft_receipt "@ + p.nonce)
                    &&& after.replies == s.replies
                    &&& after.task == Some(
                        CraftView {
                            phase: CraftPhase::ReceiptRequested {
                                prepared: p,
                                retry_at: (at + 500) as u64,
                                expires_at,
                            },
                            ..t
                        },
                    )
                },
                CraftPhase::ReceiptRequested { retry_at, expires_at, .. } => at < expires_at
                    ==> if at < retry_at {
                    after == s
                } else {
                    &&& after.conn == s.conn
                    &&& after.replies == s.replies
                    &&& after.task == Some(
                        CraftView {
                            phase: CraftPhase::WaitingForReceipt {
                                prepared: p,
                                poll_at: at,
                                expires_at,
                            },
                            ..t
                        },
                    )
                },
                _ => false,
            }
        }),
{
}

/// What whoever waits for a craft is told when it ends.
pub open spec fn told_of_craft(
    before: RepliesView,
    after: RepliesView,
    t: CraftView,
    prepared: Option<PreparedView>,
    ok: bool,
    status: Seq<char>,
    unknown: bool,
    delivered: int,
) -> bool {
    exists|r: JsonValue|
        {
            &&& after == resolved(before, "BOT_CRAFT"@, #[trigger] json_text(r))
            &&& bool_member(r, "ok"@) == Some(ok)
            &&& str_member(r, "status"@) == Some(status)
            &&& str_member(r, "item"@) == Some(t.item)
            &&& u64_member(r, "requested"@) == Some(t.requested as u64)
            &&& u64_member(r, "delivered"@) == Some(delivered as u64)
            &&& u64_member(r, "surplus"@) == Some(
                if delivered > t.requested {
                    (delivered - t.requested) as u64
                } else {
                    0u64
                },
            )
            &&& u64_member(r, "produced"@) == Some(
                if prepared is Some {
                    prepared->0.produced as u64
                } else {
                    0u64
                },
            )
            &&& u64_member(r, "batches"@) == Some(
                if prepared is Some {
                    prepared->0.batches as u64
                } else {
                    0u64
                },
            )
            &&& u64_member(r, "grid_size"@) == Some(
                if prepared is Some {
                    prepared->0.grid_size as u64
                } else {
                    0u64
                },
            )
            &&& bool_member(r, "used_table"@) == Some(prepared is Some && prepared->0.used_table)
            &&& prepared is Some ==> member_of(r, "ingredients"@) == Some(prepared->0.ingredients)
            &&& bool_member(r, "outcome_unknown"@) == Some(unknown)
            &&& str_member(r, "error"@) == if ok {
                None
            } else {
                Some(status)
            }
        }
}

proof fn craft_reply_every_member(
    before: RepliesView,
    t: CraftView,
    ok: bool,
    status: Seq<char>,
    delivered: u16,
    prepared: Option<PreparedView>,
)
    ensures
        told_of_craft(
            before,
            resolved(
                before,
                "BOT_CRAFT"@,
                json_text(craft_reply(t, ok, status, delivered, prepared)),
            ),
            t,
            prepared,
            ok,
            status,
            is_unknown_outcome(status),
            delivered as int,
        ),
{
    reveal_strlit("ok");
    reveal_strlit("status");
    reveal_strlit("item");
    reveal_strlit("requested");
    reveal_strlit("produced");
    reveal_strlit("delivered");
    reveal_strlit("batches");
    reveal_strlit("grid_size");
    reveal_strlit("surplus");
    reveal_strlit("used_table");
    reveal_strlit("ingredients");
    reveal_strlit("outcome_unknown");
    reveal_strlit("error");
    assert("ok"@.len() == 2 && "status"@.len() == 6 && "item"@.len() == 4);
    assert("requested"@.len() == 9 && "produced"@.len() == 8 && "delivered"@.len() == 9);
    assert("batches"@.len() == 7 && "grid_size"@.len() == 9 && "surplus"@.len() == 7);
    assert("used_table"@.len() == 10 && "ingredients"@.len() == 11);
    assert("outcome_unknown"@.len() == 15 && "error"@.len() == 5);
    assert("requested"@[0] == 'r' && "delivered"@[0] == 'd' && "grid_size"@[0] == 'g');
    assert("batches"@[0] == 'b' && "surplus"@[0] == 's');
    let r = craft_reply(t, ok, status, delivered, prepared);
    assert(bool_member(r, "ok"@) == Some(ok));
    assert(json_text(r) == json_text(r));
}

/// A receipt settles a craft by what it says was delivered: the request is answered with
/// exactly that number, with success where it reaches what was asked for. A receipt that
/// is pending settles nothing, one for another craft changes nothing, and one that is
/// not `ok`, names another item or an impossible number is a failure with nothing
/// delivered.
pub proof fn receipt_settles_a_craft(
    s: CraftState,
    t: CraftView,
    p: PreparedView,
    v: JsonValue,
    now: u64,
)
    requires
        s.task == Some(t),
        t.phase is ReceiptRequested,
        phase_prepared(t.phase) == Some(p),
    ensures
        ({
            let after = craft_receipt(s, v, now);
            let n = if u64_member(v, "delivered"@) is Some && 1 <= u64_member(v, "delivered"@)->0
                <= p.produced {
                u64_member(v, "delivered"@)
            } else {
                u64_member(v, "moved"@)
            };
            if str_member(v, "nonce"@) != Some(p.nonce) {
                after == s
            } else if str_member(v, "status"@) == Some("pending"@) {
                &&& after.conn == s.conn
                &&& after.replies == s.replies
                &&& after.task is Some
                &&& after.task->0.phase is WaitingForReceipt
                &&& phase_prepared(after.task->0.phase) == Some(p)
                &&& after.task->0.id == t.id && after.task->0.item == t.item
                    && after.task->0.requested == t.requested
                &&& after.task->0.phase->WaitingForReceipt_expires_at
                    == t.phase->ReceiptRequested_expires_at
                &&& now + 200 <= u64::MAX ==> after.task->0.phase->poll_at == now + 200
            } else if bool_member(v, "ok"@) == Some(true) && str_member(v, "item"@) == Some(p.item)
                && n is Some && 1 <= n->0 <= p.produced {
                let enough = n->0 >= p.requested;
                let status = if enough {
                    "crafted"@
                } else {
                    "partially_crafted"@
                };
                &&& after.task is None
                &&& after.conn == s.conn
                &&& told_of_craft(
                    s.replies,
                    after.replies,
                    t,
                    Some(p),
                    enough,
                    status,
                    false,
                    n->0 as int,
                )
            } else {
                let error = if bool_member(v, "ok"@) != Some(true) {
                    if str_member(v, "status"@) is Some {
                        str_member(v, "status"@)->0
                    } else {
                        "receipt_failed"@
                    }
                } else if str_member(v, "item"@) != Some(p.item) {
                    "receipt_mismatch"@
                } else {
                    "receipt_invalid_delivered_count"@
                };
                after == craft_failed(s, error)
            }
        }),
{
    reveal_strlit("crafted");
    reveal_strlit("partially_crafted");
    reveal_strlit("outcome_unknown");
    assert("crafted"@.len() == 7 && "crafted"@[6] == 'd');
    assert("partially_crafted"@.len() == 17 && "partially_crafted"@[16] == 'd');
    assert("outcome_unknown"@.len() == 15 && "outcome_unknown"@[14] == 'n');
    if let Some(n) = reply_delivered(p, v) {
        craft_reply_every_member(s.replies, t, true, "crafted"@, n, Some(p));
        craft_reply_every_member(s.replies, t, false, "partially_crafted"@, n, Some(p));
        not_unknown("crafted"@);
        not_unknown("partially_crafted"@);
    }
}

proof fn not_unknown(status: Seq<char>)
    requires
        status.len() > 0,
        status.last() != 'n',
    ensures
        !is_unknown_outcome(status),
{
    reveal_strlit("outcome_unknown");
    assert("outcome_unknown"@.len() == 15 && "outcome_unknown"@[14] == 'n');
}

/// A craft that fails is over: the slots that were filled are emptied and the server mod
/// is told to forget it, as far as it had got, and the request is told that nothing was
/// delivered, and why.
pub proof fn failed_craft_delivers_nothing(s: CraftState, t: CraftView, error: Seq<char>)
    requires
        s.task == Some(t),
    ensures
        ({
            let after = craft_failed(s, error);
            let cleaned = match phase_prepared(t.phase) {
                Some(p) => sent_reliably(
                    slots_returned(s.conn, used_slots(p.moves, p.grid_size as nat)),
                    move_somewhere_payload(
                        65535,
                        InventoryLocation::CurrentPlayer,
                        "craftresult"@,
                        0,
                        InventoryLocation::CurrentPlayer,
                        "main"@,
                    ),
                ),
                None => s.conn,
            };
            let status = if craft_dispatched(t.phase) && !is_unknown_outcome(error) {
                error + "_outcome_unknown"@
            } else {
                error
            };
            &&& after.task is None
            &&& after.conn == match t.phase {
                CraftPhase::Ready => cleaned,
                CraftPhase::Preparing { nonce, .. } => chat_sent(
                    cleaned,
                    "/bot_craft_cancel "@ + nonce,
                ),
                _ => chat_sent(
                    cleaned,
                    "/bot_craft_cancel "@ + phase_prepared(t.phase)->0.nonce,
                ),
            }
            &&& told_of_craft(
                s.replies,
                after.replies,
                t,
                phase_prepared(t.phase),
                false,
                status,
                is_unknown_outcome(status),
                0,
            )
        }),
{
    craft_reply_every_member(
        s.replies,
        t,
        false,
        craft_error(t, error),
        0,
        phase_prepared(t.phase),
    );
}

/// A craft whose last datagrams could not be sent has failed under the name of the step that they
/// were for. One that was not prepared leaves nothing to be withdrawn, and one that was
/// not sent has no unknown outcome.
pub proof fn unsent_steps_fail_the_craft(s: CraftState, t: CraftView, error: Seq<char>)
    requires
        s.task == Some(t),
    ensures
        ({
            let after = craft_send_failed(s, error);
            &&& after.task is None
            &&& t.phase is Preparing || t.phase is Ready ==> after == craft_failed(
                CraftState { task: Some(CraftView { phase: CraftPhase::Ready, ..t }), ..s },
                "prepare_send_failed:"@ + error,
            )
            &&& t.phase is Placing ==> after == craft_failed(
                s,
                "ingredient_move_send_failed:"@ + error,
            )
            &&& t.phase is Crafting && !is_unknown_outcome("craft_send_failed:"@ + error)
                ==> told_of_craft(
                s.replies,
                after.replies,
                t,
                phase_prepared(t.phase),
                false,
                "craft_send_failed:"@ + error,
                false,
                0,
            )
            &&& t.phase is WaitingForReceipt ==> after == craft_failed(
                s,
                "output_move_send_failed:"@ + error,
            )
            &&& t.phase is ReceiptRequested ==> after == craft_failed(
                s,
                "receipt_send_failed:"@ + error,
            )
        }),
{
    if let CraftPhase::Crafting { prepared, collect_at } = t.phase {
        let back = CraftView { phase: CraftPhase::Placing { prepared, craft_at: collect_at }, ..t };
        craft_reply_every_member(
            s.replies,
            back,
            false,
            "craft_send_failed:"@ + error,
            0,
            Some(prepared),
        );
    }
}

/// A craft that takes too long has failed: the preparation after its deadline, the receipt when
/// its time is up.
pub proof fn slow_crafts_fail(s: CraftState, t: CraftView, now: u64)
    requires
        s.task == Some(t),
    ensures
        match t.phase {
            CraftPhase::Preparing { deadline, .. } => craft_advanced(s, now) == if now < deadline {
                s
            } else {
                craft_failed(s, "prepare_timeout"@)
            },
            CraftPhase::WaitingForReceipt { expires_at, .. } => now >= expires_at
                ==> craft_advanced(s, now) == craft_failed(s, "receipt_timeout"@),
            CraftPhase::ReceiptRequested { expires_at, .. } => now >= expires_at
                ==> craft_advanced(s, now) == craft_failed(s, "receipt_timeout"@),
            CraftPhase::Ready => craft_advanced(s, now) == s,
            _ => true,
        },
{
}

/// A craft counts as sent from the craft action on, and is known by the nonce of its preparation
/// in every phase.
pub proof fn crafts_are_sent_with_the_craft_action(p: PreparedView, nonce: Seq<char>, a: u64, b: u64)
    ensures
        !craft_dispatched(CraftPhase::Ready),
        !craft_dispatched(CraftPhase::Preparing { nonce, deadline: a }),
        !craft_dispatched(CraftPhase::Placing { prepared: p, craft_at: a }),
        craft_dispatched(CraftPhase::Crafting { prepared: p, collect_at: a }),
        craft_dispatched(
            CraftPhase::WaitingForReceipt { prepared: p, poll_at: a, expires_at: b },
        ),
        craft_dispatched(
            CraftPhase::ReceiptRequested { prepared: p, retry_at: a, expires_at: b },
        ),
        phase_prepared(CraftPhase::Preparing { nonce, deadline: a }) is None,
        phase_prepared(CraftPhase::Placing { prepared: p, craft_at: a }) == Some(p),
        phase_prepared(CraftPhase::Crafting { prepared: p, collect_at: a }) == Some(p),
        craft_nonce(CraftPhase::Preparing { nonce, deadline: a }) == Some(nonce),
        craft_nonce(CraftPhase::Placing { prepared: p, craft_at: a }) == Some(p.nonce),
        craft_nonce(CraftPhase::Crafting { prepared: p, collect_at: a }) == Some(p.nonce),
        craft_nonce(
            CraftPhase::ReceiptRequested { prepared: p, retry_at: a, expires_at: b },
        ) == Some(p.nonce),
{
}

} // verus!
