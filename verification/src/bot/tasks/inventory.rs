//! Native chest and furnace inventory transfers.
//!
//! A transfer asks the server mod to prepare a move, sends the move as an ordinary
//! inventory action, and asks for a receipt, until everything is moved.

use crate::bot::replies::{listened_for, resolved, PendingReplies, RepliesView};
use crate::bot::validation::{
    chest_reply_has_nonce, get_position, get_status, has_nonce, position_member, status_or,
};
use crate::json::{
    bool_member, bool_member_is_true, bool_value, get_str, get_u16, int_value, ints3, ints3_value,
    json_text, json_value, member, member_of, null_value, opt_str, opt_str_value, parse_value,
    parsed_json, set_member, str_member, str_member_is, str_value, str_view, u16_of, u64_member,
    u64_of, value_text, JsonValue,
};
use crate::network::connection::{sent_reliably, ConnectionView, MtpConnection};
use crate::network::events::InventoryLocation;
use crate::network::outbound::{
    chat_sent, move_error, move_somewhere_payload, OutboundError, OutboundErrorView,
};
use crate::scan::{ends, ends_with};
use crate::text::{
    dec, dec_digits, dec_digits_injective, hex, hex_digits, hex_digits_injective, push_dec,
    push_hex, text_view, to_chars,
};
use crate::types::{after_ms, later, manhattan, manhattan_distance, IVec3};
use vstd::prelude::*;
use vstd::string::*;

verus! {

/// What is moved where.
#[derive(Clone, Copy, Debug, PartialEq, Eq, Structural)]
pub enum InventoryTransferOperation {
    ChestDeposit,
    ChestWithdraw,
    FurnaceInput,
    FurnaceFuel,
    FurnaceOutput,
}

impl InventoryTransferOperation {
    /// The operation in bot commands.
    pub open spec fn command_name_text(self) -> Seq<char> {
        match self {
            InventoryTransferOperation::ChestDeposit => "deposit"@,
            InventoryTransferOperation::ChestWithdraw => "withdraw"@,
            InventoryTransferOperation::FurnaceInput => "input"@,
            InventoryTransferOperation::FurnaceFuel => "fuel"@,
            InventoryTransferOperation::FurnaceOutput => "output"@,
        }
    }

    /// What is transferred to or from.
    pub open spec fn container_kind_text(self) -> Seq<char> {
        match self {
            InventoryTransferOperation::ChestDeposit
            | InventoryTransferOperation::ChestWithdraw => "chest"@,
            InventoryTransferOperation::FurnaceInput
            | InventoryTransferOperation::FurnaceFuel
            | InventoryTransferOperation::FurnaceOutput => "furnace"@,
        }
    }

    /// The command that prepares a transfer.
    pub open spec fn prepare_command_text(self) -> Seq<char> {
        match self {
            InventoryTransferOperation::ChestDeposit
            | InventoryTransferOperation::ChestWithdraw => "bot_chest_prepare"@,
            InventoryTransferOperation::FurnaceInput
            | InventoryTransferOperation::FurnaceFuel
            | InventoryTransferOperation::FurnaceOutput => "bot_furnace_prepare"@,
        }
    }

    /// The command that asks what was transferred.
    pub open spec fn receipt_command_text(self) -> Seq<char> {
        match self {
            InventoryTransferOperation::ChestDeposit
            | InventoryTransferOperation::ChestWithdraw => "bot_chest_receipt"@,
            InventoryTransferOperation::FurnaceInput
            | InventoryTransferOperation::FurnaceFuel
            | InventoryTransferOperation::FurnaceOutput => "bot_furnace_receipt"@,
        }
    }

    /// The command that gives a transfer up.
    pub open spec fn cancel_command_text(self) -> Seq<char> {
        match self {
            InventoryTransferOperation::ChestDeposit
            | InventoryTransferOperation::ChestWithdraw => "bot_chest_cancel"@,
            InventoryTransferOperation::FurnaceInput
            | InventoryTransferOperation::FurnaceFuel
            | InventoryTransferOperation::FurnaceOutput => "bot_furnace_cancel"@,
        }
    }

    /// The tag of the reply to a preparation.
    pub open spec fn prepare_tag_text(self) -> Seq<char> {
        match self {
            InventoryTransferOperation::ChestDeposit
            | InventoryTransferOperation::ChestWithdraw => "BOT_CHEST_PREPARE"@,
            InventoryTransferOperation::FurnaceInput
            | InventoryTransferOperation::FurnaceFuel
            | InventoryTransferOperation::FurnaceOutput => "BOT_FURNACE_PREPARE"@,
        }
    }

    /// The tag of the reply with a receipt.
    pub open spec fn receipt_tag_text(self) -> Seq<char> {
        match self {
            InventoryTransferOperation::ChestDeposit
            | InventoryTransferOperation::ChestWithdraw => "BOT_CHEST_RECEIPT"@,
            InventoryTransferOperation::FurnaceInput
            | InventoryTransferOperation::FurnaceFuel
            | InventoryTransferOperation::FurnaceOutput => "BOT_FURNACE_RECEIPT"@,
        }
    }

    /// The tag of the reply to the request itself.
    pub open spec fn reply_tag_text(self) -> Seq<char> {
        match self {
            InventoryTransferOperation::ChestDeposit => "BOT_CHEST_DEPOSIT"@,
            InventoryTransferOperation::ChestWithdraw => "BOT_CHEST_WITHDRAW"@,
            InventoryTransferOperation::FurnaceInput => "BOT_FURNACE_INPUT"@,
            InventoryTransferOperation::FurnaceFuel => "BOT_FURNACE_FUEL"@,
            InventoryTransferOperation::FurnaceOutput => "BOT_FURNACE_OUTPUT"@,
        }
    }

    /// The inventory list of the container.
    pub open spec fn expected_container_list_text(self) -> Seq<char> {
        match self {
            InventoryTransferOperation::ChestDeposit
            | InventoryTransferOperation::ChestWithdraw => "main"@,
            InventoryTransferOperation::FurnaceInput => "src"@,
            InventoryTransferOperation::FurnaceFuel => "fuel"@,
            InventoryTransferOperation::FurnaceOutput => "dst"@,
        }
    }

    /// The status when everything was moved.
    pub open spec fn completed_status_text(self) -> Seq<char> {
        match self {
            InventoryTransferOperation::ChestDeposit => "deposited"@,
            InventoryTransferOperation::ChestWithdraw => "withdrawn"@,
            InventoryTransferOperation::FurnaceInput => "input_loaded"@,
            InventoryTransferOperation::FurnaceFuel => "fuel_loaded"@,
            InventoryTransferOperation::FurnaceOutput => "output_collected"@,
        }
    }

    /// The status when something was moved.
    pub open spec fn partial_status_text(self) -> Seq<char> {
        match self {
            InventoryTransferOperation::ChestDeposit => "partially_deposited"@,
            InventoryTransferOperation::ChestWithdraw => "partially_withdrawn"@,
            InventoryTransferOperation::FurnaceInput => "input_partially_loaded"@,
            InventoryTransferOperation::FurnaceFuel => "fuel_partially_loaded"@,
            InventoryTransferOperation::FurnaceOutput => "output_partially_collected"@,
        }
    }

    pub fn command_name(self) -> (s: &'static str)
        ensures
            s@ == self.command_name_text(),
    {
        match self {
            InventoryTransferOperation::ChestDeposit => "deposit",
            InventoryTransferOperation::ChestWithdraw => "withdraw",
            InventoryTransferOperation::FurnaceInput => "input",
            InventoryTransferOperation::FurnaceFuel => "fuel",
            InventoryTransferOperation::FurnaceOutput => "output",
        }
    }

    pub fn container_kind(self) -> (s: &'static str)
        ensures
            s@ == self.container_kind_text(),
    {
        match self {
            InventoryTransferOperation::ChestDeposit
            | InventoryTransferOperation::ChestWithdraw => "chest",
            InventoryTransferOperation::FurnaceInput
            | InventoryTransferOperation::FurnaceFuel
            | InventoryTransferOperation::FurnaceOutput => "furnace",
        }
    }

    pub fn prepare_command(self) -> (s: &'static str)
        ensures
            s@ == self.prepare_command_text(),
    {
        match self {
            InventoryTransferOperation::ChestDeposit
            | InventoryTransferOperation::ChestWithdraw => "bot_chest_prepare",
            InventoryTransferOperation::FurnaceInput
            | InventoryTransferOperation::FurnaceFuel
            | InventoryTransferOperation::FurnaceOutput => "bot_furnace_prepare",
        }
    }

    pub fn receipt_command(self) -> (s: &'static str)
        ensures
            s@ == self.receipt_command_text(),
    {
        match self {
            InventoryTransferOperation::ChestDeposit
            | InventoryTransferOperation::ChestWithdraw => "bot_chest_receipt",
            InventoryTransferOperation::FurnaceInput
            | InventoryTransferOperation::FurnaceFuel
            | InventoryTransferOperation::FurnaceOutput => "bot_furnace_receipt",
        }
    }

    pub fn cancel_command(self) -> (s: &'static str)
        ensures
            s@ == self.cancel_command_text(),
    {
        match self {
            InventoryTransferOperation::ChestDeposit
            | InventoryTransferOperation::ChestWithdraw => "bot_chest_cancel",
            InventoryTransferOperation::FurnaceInput
            | InventoryTransferOperation::FurnaceFuel
            | InventoryTransferOperation::FurnaceOutput => "bot_furnace_cancel",
        }
    }

    pub fn prepare_tag(self) -> (s: &'static str)
        ensures
            s@ == self.prepare_tag_text(),
    {
        match self {
            InventoryTransferOperation::ChestDeposit
            | InventoryTransferOperation::ChestWithdraw => "BOT_CHEST_PREPARE",
            InventoryTransferOperation::FurnaceInput
            | InventoryTransferOperation::FurnaceFuel
            | InventoryTransferOperation::FurnaceOutput => "BOT_FURNACE_PREPARE",
        }
    }

    pub fn receipt_tag(self) -> (s: &'static str)
        ensures
            s@ == self.receipt_tag_text(),
    {
        match self {
            InventoryTransferOperation::ChestDeposit
            | InventoryTransferOperation::ChestWithdraw => "BOT_CHEST_RECEIPT",
            InventoryTransferOperation::FurnaceInput
            | InventoryTransferOperation::FurnaceFuel
            | InventoryTransferOperation::FurnaceOutput => "BOT_FURNACE_RECEIPT",
        }
    }

    pub fn reply_tag(self) -> (s: &'static str)
        ensures
            s@ == self.reply_tag_text(),
    {
        match self {
            InventoryTransferOperation::ChestDeposit => "BOT_CHEST_DEPOSIT",
            InventoryTransferOperation::ChestWithdraw => "BOT_CHEST_WITHDRAW",
            InventoryTransferOperation::FurnaceInput => "BOT_FURNACE_INPUT",
            InventoryTransferOperation::FurnaceFuel => "BOT_FURNACE_FUEL",
            InventoryTransferOperation::FurnaceOutput => "BOT_FURNACE_OUTPUT",
        }
    }

    pub fn expected_container_list(self) -> (s: &'static str)
        ensures
            s@ == self.expected_container_list_text(),
    {
        match self {
            InventoryTransferOperation::ChestDeposit
            | InventoryTransferOperation::ChestWithdraw => "main",
            InventoryTransferOperation::FurnaceInput => "src",
            InventoryTransferOperation::FurnaceFuel => "fuel",
            InventoryTransferOperation::FurnaceOutput => "dst",
        }
    }

    pub fn completed_status(self) -> (s: &'static str)
        ensures
            s@ == self.completed_status_text(),
    {
        match self {
            InventoryTransferOperation::ChestDeposit => "deposited",
            InventoryTransferOperation::ChestWithdraw => "withdrawn",
            InventoryTransferOperation::FurnaceInput => "input_loaded",
            InventoryTransferOperation::FurnaceFuel => "fuel_loaded",
            InventoryTransferOperation::FurnaceOutput => "output_collected",
        }
    }

    pub fn partial_status(self) -> (s: &'static str)
        ensures
            s@ == self.partial_status_text(),
    {
        match self {
            InventoryTransferOperation::ChestDeposit => "partially_deposited",
            InventoryTransferOperation::ChestWithdraw => "partially_withdrawn",
            InventoryTransferOperation::FurnaceInput => "input_partially_loaded",
            InventoryTransferOperation::FurnaceFuel => "fuel_partially_loaded",
            InventoryTransferOperation::FurnaceOutput => "output_partially_collected",
        }
    }

    pub open spec fn deposits(self) -> bool {
        match self {
            InventoryTransferOperation::ChestDeposit | InventoryTransferOperation::FurnaceInput
            | InventoryTransferOperation::FurnaceFuel => true,
            _ => false,
        }
    }

    /// Whether items go from the player into the container.
    pub fn deposits_into_container(self) -> (yes: bool)
        ensures
            yes == self.deposits(),
    {
        match self {
            InventoryTransferOperation::ChestDeposit | InventoryTransferOperation::FurnaceInput
            | InventoryTransferOperation::FurnaceFuel => true,
            _ => false,
        }
    }

    /// A chest may be the other half of a double chest, a furnace is where it is.
    pub open spec fn allowed_separation(self) -> int {
        match self {
            InventoryTransferOperation::ChestDeposit
            | InventoryTransferOperation::ChestWithdraw => 1,
            _ => 0,
        }
    }

    fn separation_limit(self) -> (n: i64)
        ensures
            n == self.allowed_separation(),
    {
        match self {
            InventoryTransferOperation::ChestDeposit
            | InventoryTransferOperation::ChestWithdraw => 1,
            _ => 0,
        }
    }
}

/// Where a transfer is. Times are in milliseconds.
#[derive(Clone, Debug)]
pub enum NativeInventoryTransferPhase {
    Ready,
    Preparing { nonce: String, deadline: u64 },
    WaitingForReceipt { nonce: String, action_count: u16, poll_at: u64, expires_at: u64 },
    ReceiptRequested { nonce: String, action_count: u16, retry_at: u64, expires_at: u64 },
}

/// The value of a [`NativeInventoryTransferPhase`].
pub ghost enum TransferPhase {
    Ready,
    Preparing { nonce: Seq<char>, deadline: u64 },
    WaitingForReceipt { nonce: Seq<char>, action_count: u16, poll_at: u64, expires_at: u64 },
    ReceiptRequested { nonce: Seq<char>, action_count: u16, retry_at: u64, expires_at: u64 },
}

impl View for NativeInventoryTransferPhase {
    type V = TransferPhase;

    open spec fn view(&self) -> TransferPhase {
        match *self {
            NativeInventoryTransferPhase::Ready => TransferPhase::Ready,
            NativeInventoryTransferPhase::Preparing { nonce, deadline } => {
                TransferPhase::Preparing { nonce: nonce@, deadline }
            },
            NativeInventoryTransferPhase::WaitingForReceipt {
                nonce,
                action_count,
                poll_at,
                expires_at,
            } => TransferPhase::WaitingForReceipt {
                nonce: nonce@,
                action_count,
                poll_at,
                expires_at,
            },
            NativeInventoryTransferPhase::ReceiptRequested {
                nonce,
                action_count,
                retry_at,
                expires_at,
            } => TransferPhase::ReceiptRequested {
                nonce: nonce@,
                action_count,
                retry_at,
                expires_at,
            },
        }
    }
}

/// An inventory action has been sent, and what it moved is not known yet.
pub open spec fn dispatched(phase: TransferPhase) -> bool {
    phase is WaitingForReceipt || phase is ReceiptRequested
}

/// The nonce that the server mod knows the current action by.
pub open spec fn phase_nonce(phase: TransferPhase) -> Option<Seq<char>> {
    match phase {
        TransferPhase::Ready => None,
        TransferPhase::Preparing { nonce, .. } => Some(nonce),
        TransferPhase::WaitingForReceipt { nonce, .. } => Some(nonce),
        TransferPhase::ReceiptRequested { nonce, .. } => Some(nonce),
    }
}

impl NativeInventoryTransferPhase {
    pub fn action_dispatched(&self) -> (yes: bool)
        ensures
            yes == dispatched(self@),
    {
        match self {
            NativeInventoryTransferPhase::WaitingForReceipt { .. } => true,
            NativeInventoryTransferPhase::ReceiptRequested { .. } => true,
            _ => false,
        }
    }

    fn nonce(&self) -> (nonce: Option<&String>)
        ensures
            match nonce {
                Some(n) => phase_nonce(self@) == Some(n@),
                None => phase_nonce(self@) is None,
            },
    {
        match self {
            NativeInventoryTransferPhase::Ready => None,
            NativeInventoryTransferPhase::Preparing { nonce, .. } => Some(nonce),
            NativeInventoryTransferPhase::WaitingForReceipt { nonce, .. } => Some(nonce),
            NativeInventoryTransferPhase::ReceiptRequested { nonce, .. } => Some(nonce),
        }
    }
}

/// Numbers tasks of one kind.
pub struct TaskIds {
    pub next: u64,
}

impl TaskIds {
    pub fn new() -> (ids: Self)
        ensures
            ids.next == 1,
    {
        TaskIds { next: 1 }
    }

    /// The next number.
    pub fn allocate(&mut self) -> (id: u64)
        ensures
            id == old(self).next,
            final(self).next == (if old(self).next == u64::MAX {
                0u64
            } else {
                (old(self).next + 1) as u64
            }),
    {
        let id: u64 = self.next;
        self.next = self.next.wrapping_add(1);
        id
    }
}

/// A transfer of items.
#[derive(Clone, Debug)]
pub struct NativeInventoryTransferTask {
    pub id: u64,
    pub operation: InventoryTransferOperation,
    pub target: IVec3,
    pub item: String,
    pub requested: u16,
    pub moved: u16,
    pub actions: u8,
    pub deadline: u64,
    pub phase: NativeInventoryTransferPhase,
    pub last_error: Option<String>,
}

/// The value of a [`NativeInventoryTransferTask`].
pub ghost struct TransferView {
    pub id: u64,
    pub operation: InventoryTransferOperation,
    pub target: IVec3,
    pub item: Seq<char>,
    pub requested: u16,
    pub moved: u16,
    pub actions: u8,
    pub deadline: u64,
    pub phase: TransferPhase,
    pub last_error: Option<Seq<char>>,
}

impl View for NativeInventoryTransferTask {
    type V = TransferView;

    open spec fn view(&self) -> TransferView {
        TransferView {
            id: self.id,
            operation: self.operation,
            target: self.target,
            item: self.item@,
            requested: self.requested,
            moved: self.moved,
            actions: self.actions,
            deadline: self.deadline,
            phase: self.phase@,
            last_error: text_view(self.last_error),
        }
    }
}

pub open spec fn transfer_view(task: Option<NativeInventoryTransferTask>) -> Option<TransferView> {
    match task {
        Some(t) => Some(t@),
        None => None,
    }
}

/// At most so many inventory actions are sent for one transfer.
pub const MAX_NATIVE_INVENTORY_ACTIONS: u8 = 8;

/// A transfer ends after so many milliseconds.
pub const NATIVE_INVENTORY_TASK_TIMEOUT: u64 = 12_000;

/// How long the HTTP interface waits for a transfer, in milliseconds.
pub const API_INVENTORY_TRANSFER_TIMEOUT: u64 = 15_000;

pub open spec fn new_transfer(
    id: u64,
    operation: InventoryTransferOperation,
    target: IVec3,
    item: Seq<char>,
    requested: u16,
    now: u64,
) -> TransferView {
    TransferView {
        id,
        operation,
        target,
        item,
        requested,
        moved: 0,
        actions: 0,
        deadline: later(now, NATIVE_INVENTORY_TASK_TIMEOUT),
        phase: TransferPhase::Ready,
        last_error: None,
    }
}

/// The error after which the outcome of an action is not known.
pub open spec fn is_unknown_outcome(error: Seq<char>) -> bool {
    ends(error, "outcome_unknown"@)
}

/// The status of a transfer that ends, whether it counts as a success, and whether
/// its outcome is unknown.
pub open spec fn transfer_status(t: TransferView) -> (Seq<char>, bool, bool) {
    match t.last_error {
        Some(error) if is_unknown_outcome(error) => (error, false, true),
        _ => if t.moved >= t.requested {
            (t.operation.completed_status_text(), true, false)
        } else if t.moved > 0 {
            (t.operation.partial_status_text(), true, false)
        } else {
            (
                match t.last_error {
                    Some(error) => error,
                    None => "transfer_failed"@,
                },
                false,
                false,
            )
        },
    }
}

fn error_is_unknown_outcome(error: &String) -> (yes: bool)
    ensures
        yes == is_unknown_outcome(error@),
{
    ends_with(to_chars(error.as_str()).as_slice(), "outcome_unknown")
}

impl NativeInventoryTransferTask {
    pub fn new(
        ids: &mut TaskIds,
        operation: InventoryTransferOperation,
        target: IVec3,
        item: String,
        requested: u16,
        now: u64,
    ) -> (task: Self)
        ensures
            task@ == new_transfer(old(ids).next, operation, target, item@, requested, now),
            final(ids).next == (if old(ids).next == u64::MAX {
                0u64
            } else {
                (old(ids).next + 1) as u64
            }),
    {
        NativeInventoryTransferTask {
            id: ids.allocate(),
            operation,
            target,
            item,
            requested,
            moved: 0,
            actions: 0,
            deadline: after_ms(now, NATIVE_INVENTORY_TASK_TIMEOUT),
            phase: NativeInventoryTransferPhase::Ready,
            last_error: None,
        }
    }

    pub fn result_status(&self) -> (status: (&str, bool, bool))
        ensures
            (status.0@, status.1, status.2) == transfer_status(self@),
    {
        if let Some(error) = &self.last_error {
            if error_is_unknown_outcome(error) {
                return (error.as_str(), false, true);
            }
        }
        if self.moved >= self.requested {
            return (self.operation.completed_status(), true, false);
        }
        if self.moved > 0 {
            return (self.operation.partial_status(), true, false);
        }
        match &self.last_error {
            Some(error) => (error.as_str(), false, false),
            None => ("transfer_failed", false, false),
        }
    }
}

/// What a transfer acts on: itself, the connection, and the waiting requests.
pub ghost struct TransferState {
    pub task: Option<TransferView>,
    pub conn: ConnectionView,
    pub replies: RepliesView,
}

/// What a request for a transfer is answered with.
pub open spec fn transfer_reply(
    t: TransferView,
    status: Seq<char>,
    ok: bool,
    outcome_unknown: bool,
    error: Option<Seq<char>>,
) -> JsonValue {
    let remaining = if t.requested >= t.moved { t.requested - t.moved } else { 0 };
    JsonValue::Object(
        Map::empty().insert("ok"@, JsonValue::Bool(ok)).insert(
            "status"@,
            JsonValue::Str(status),
        ).insert("container"@, JsonValue::Str(t.operation.container_kind_text())).insert(
            "operation"@,
            JsonValue::Str(t.operation.command_name_text()),
        ).insert(
            "target"@,
            ints3(t.target.x as int, t.target.y as int, t.target.z as int),
        ).insert("item"@, JsonValue::Str(t.item)).insert(
            "requested"@,
            JsonValue::Int(t.requested as int),
        ).insert("moved"@, JsonValue::Int(t.moved as int)).insert(
            "confirmed_moved"@,
            JsonValue::Int(t.moved as int),
        ).insert("remaining"@, JsonValue::Int(remaining)).insert(
            "actions"@,
            JsonValue::Int(t.actions as int),
        ).insert("outcome_unknown"@, JsonValue::Bool(outcome_unknown)).insert(
            "error"@,
            opt_str(error),
        ),
    )
}

/// The reply when a transfer ends by itself.
pub open spec fn finish_reply(t: TransferView) -> JsonValue {
    let (status, ok, unknown) = transfer_status(t);
    transfer_reply(t, status, ok, unknown, if ok { None } else { Some(status) })
}

/// The requests once a transfer has ended by itself.
pub open spec fn finish_answered(task: Option<TransferView>, replies: RepliesView) -> RepliesView {
    match task {
        Some(t) => resolved(replies, t.operation.reply_tag_text(), json_text(finish_reply(t))),
        None => replies,
    }
}

/// The transfer ends and its request is answered.
pub open spec fn transfer_finished(s: TransferState) -> TransferState {
    TransferState { task: None, conn: s.conn, replies: finish_answered(s.task, s.replies) }
}

/// The server mod is told to forget the current action.
pub open spec fn nonce_cancelled(conn: ConnectionView, t: TransferView) -> ConnectionView {
    match phase_nonce(t.phase) {
        Some(nonce) => chat_sent(conn, "/"@ + t.operation.cancel_command_text() + " "@ + nonce),
        None => conn,
    }
}

/// The error that is reported: where an action was sent, its outcome is unknown.
pub open spec fn reported_error(t: TransferView, error: Seq<char>) -> Seq<char> {
    if dispatched(t.phase) && !is_unknown_outcome(error) {
        error + "_outcome_unknown"@
    } else {
        error
    }
}

/// The transfer fails.
pub open spec fn transfer_failed(s: TransferState, error: Seq<char>) -> TransferState {
    match s.task {
        Some(t) => transfer_finished(
            TransferState {
                task: Some(TransferView { last_error: Some(reported_error(t, error)), ..t }),
                conn: nonce_cancelled(s.conn, t),
                replies: s.replies,
            },
        ),
        None => s,
    }
}

/// The transfer is given up on request.
pub open spec fn transfer_cancelled(s: TransferState) -> TransferState {
    match s.task {
        Some(t) => {
            let unknown = dispatched(t.phase);
            let status = if unknown { "cancelled_outcome_unknown"@ } else { "cancelled"@ };
            TransferState {
                task: None,
                conn: nonce_cancelled(s.conn, t),
                replies: resolved(
                    s.replies,
                    t.operation.reply_tag_text(),
                    json_text(transfer_reply(t, status, false, unknown, Some(status))),
                ),
            }
        },
        None => s,
    }
}

/// The nonce of the next action.
pub open spec fn next_nonce(t: TransferView) -> Seq<char> {
    hex(t.id as int) + "-"@ + dec(
        if t.actions == u8::MAX {
            255int
        } else {
            t.actions + 1
        },
    )
}

/// The command that prepares the next action.
pub open spec fn prepare_text(t: TransferView) -> Seq<char> {
    "/"@ + t.operation.prepare_command_text() + " "@ + next_nonce(t) + " "@
        + t.operation.command_name_text() + " "@ + dec(t.target.x as int) + " "@ + dec(
        t.target.y as int,
    ) + " "@ + dec(t.target.z as int) + " "@ + t.item + " "@ + dec(t.requested - t.moved)
}

/// A transfer that is ready prepares its next action, or ends where nothing is
/// left to move or too many actions were sent.
pub open spec fn transfer_continued(s: TransferState, now: u64) -> TransferState {
    match s.task {
        Some(t) => if !(t.phase is Ready) {
            s
        } else if t.moved >= t.requested || t.actions >= MAX_NATIVE_INVENTORY_ACTIONS {
            transfer_finished(s)
        } else {
            TransferState {
                task: Some(
                    TransferView {
                        phase: TransferPhase::Preparing {
                            nonce: next_nonce(t),
                            deadline: later(now, 3000),
                        },
                        ..t
                    },
                ),
                conn: chat_sent(s.conn, prepare_text(t)),
                replies: s.replies,
            }
        },
        None => s,
    }
}

/// A reply speaks of this transfer.
pub open spec fn reply_matches(t: TransferView, v: JsonValue) -> bool {
    &&& str_member(v, "operation"@) == Some(t.operation.command_name_text())
    &&& str_member(v, "item"@) == Some(t.item)
    &&& position_member(v, "requested_target"@) == Some(t.target)
}

/// The slot of the container that a reply names.
pub open spec fn container_slot(v: JsonValue) -> Option<u16> {
    let slot = match member_of(v, "container_slot"@) {
        Some(m) => Some(m),
        None => match member_of(v, "furnace_slot"@) {
            Some(m) => Some(m),
            None => member_of(v, "chest_slot"@),
        },
    };
    match slot {
        Some(m) => u16_of(u64_of(m)),
        None => None,
    }
}

/// The slot from which items are taken.
pub open spec fn source_slot(t: TransferView, v: JsonValue) -> Option<u16> {
    if t.operation.deposits() {
        u16_of(u64_member(v, "player_slot"@))
    } else {
        container_slot(v)
    }
}

/// The number of items to be moved: at least one and at most what is left.
pub open spec fn action_count(t: TransferView, v: JsonValue) -> Option<u16> {
    match u16_of(u64_member(v, "action_count"@)) {
        Some(n) => if n > 0 && t.moved <= t.requested && n <= t.requested - t.moved {
            Some(n)
        } else {
            None
        },
        None => None,
    }
}

pub open spec fn container_list(t: TransferView, v: JsonValue) -> Seq<char> {
    match str_member(v, "container_list"@) {
        Some(list) => list,
        None => t.operation.expected_container_list_text(),
    }
}

/// Why a prepared action is not carried out: the first fault of the reply.
pub open spec fn prepare_fault(t: TransferView, v: JsonValue) -> Option<Seq<char>> {
    if bool_member(v, "ok"@) != Some(true) {
        Some(status_or(v, "prepare_failed"@))
    } else if !reply_matches(t, v) {
        Some("prepare_mismatch"@)
    } else {
        match position_member(v, "container_pos"@) {
            None => Some("prepare_missing_container_position"@),
            Some(pos) => if manhattan(pos, t.target) > t.operation.allowed_separation() {
                Some("prepare_invalid_container_position"@)
            } else if action_count(t, v) is None {
                Some("prepare_invalid_action_count"@)
            } else if container_list(t, v) != t.operation.expected_container_list_text() {
                Some("prepare_invalid_container_list"@)
            } else if source_slot(t, v) is None {
                if t.operation.deposits() {
                    Some("prepare_invalid_player_slot"@)
                } else {
                    Some("prepare_invalid_container_slot"@)
                }
            } else {
                None
            },
        }
    }
}

/// The container of a prepared action.
pub open spec fn container(v: JsonValue) -> InventoryLocation {
    InventoryLocation::NodeMeta(position_member(v, "container_pos"@)->0)
}

/// Why a prepared action cannot be sent, if it cannot.
pub open spec fn prepared_move_error(t: TransferView, v: JsonValue) -> Option<OutboundErrorView> {
    let count = action_count(t, v)->0;
    let list = t.operation.expected_container_list_text();
    if t.operation.deposits() {
        move_error(count, InventoryLocation::CurrentPlayer, "main"@, container(v), list)
    } else {
        move_error(count, container(v), list, InventoryLocation::CurrentPlayer, "main"@)
    }
}

/// The inventory action that was prepared.
pub open spec fn prepared_move(t: TransferView, v: JsonValue) -> Seq<u8> {
    let count = action_count(t, v)->0;
    let list = t.operation.expected_container_list_text();
    let slot = source_slot(t, v)->0;
    if t.operation.deposits() {
        move_somewhere_payload(
            count,
            InventoryLocation::CurrentPlayer,
            "main"@,
            slot,
            container(v),
            list,
        )
    } else {
        move_somewhere_payload(
            count,
            container(v),
            list,
            slot,
            InventoryLocation::CurrentPlayer,
            "main"@,
        )
    }
}

/// The reply to a preparation has come in. One that is not awaited, or that bears
/// another nonce, changes nothing.
pub open spec fn transfer_prepared(s: TransferState, v: JsonValue, now: u64) -> Result<
    TransferState,
    OutboundErrorView,
> {
    match s.task {
        Some(t) => match t.phase {
            TransferPhase::Preparing { nonce, .. } => if !has_nonce(v, nonce) {
                Ok(s)
            } else {
                match prepare_fault(t, v) {
                    Some(fault) => Ok(transfer_failed(s, fault)),
                    None => match prepared_move_error(t, v) {
                        Some(e) => Err(e),
                        None => Ok(
                            TransferState {
                                task: Some(
                                    TransferView {
                                        actions: if t.actions == u8::MAX {
                                            u8::MAX
                                        } else {
                                            (t.actions + 1) as u8
                                        },
                                        phase: TransferPhase::WaitingForReceipt {
                                            nonce,
                                            action_count: action_count(t, v)->0,
                                            poll_at: later(now, 200),
                                            expires_at: later(now, 4000),
                                        },
                                        ..t
                                    },
                                ),
                                conn: sent_reliably(s.conn, prepared_move(t, v)),
                                replies: s.replies,
                            },
                        ),
                    },
                }
            },
            _ => Ok(s),
        },
        None => Ok(s),
    }
}

/// The number of items that a receipt says were moved: at least one and at most
/// what the action asked for.
pub open spec fn moved_count(v: JsonValue, action_count: u16) -> Option<u16> {
    match u16_of(u64_member(v, "moved"@)) {
        Some(n) => if n > 0 && n <= action_count {
            Some(n)
        } else {
            None
        },
        None => None,
    }
}

/// A receipt has come in.
pub open spec fn transfer_receipt(s: TransferState, v: JsonValue, now: u64) -> TransferState {
    match s.task {
        Some(t) => match t.phase {
            TransferPhase::ReceiptRequested { nonce, action_count, expires_at, .. } => {
                if !has_nonce(v, nonce) {
                    s
                } else if str_member(v, "status"@) == Some("pending"@) {
                    TransferState {
                        task: Some(
                            TransferView {
                                phase: TransferPhase::WaitingForReceipt {
                                    nonce,
                                    action_count,
                                    poll_at: later(now, 200),
                                    expires_at,
                                },
                                ..t
                            },
                        ),
                        ..s
                    }
                } else if bool_member(v, "ok"@) != Some(true) {
                    transfer_failed(s, status_or(v, "receipt_failed"@))
                } else if !reply_matches(t, v) {
                    transfer_failed(s, "receipt_mismatch"@)
                } else {
                    match moved_count(v, action_count) {
                        None => transfer_failed(s, "receipt_invalid_moved_count"@),
                        Some(moved) => transfer_continued(
                            TransferState {
                                task: Some(
                                    TransferView {
                                        moved: if t.moved + moved <= t.requested {
                                            (t.moved + moved) as u16
                                        } else {
                                            t.requested
                                        },
                                        phase: TransferPhase::Ready,
                                        ..t
                                    },
                                ),
                                ..s
                            },
                            now,
                        ),
                    }
                }
            },
            _ => s,
        },
        None => s,
    }
}

/// Time has passed.
pub open spec fn transfer_advanced(s: TransferState, now: u64) -> TransferState {
    match s.task {
        Some(t) => if now >= t.deadline {
            transfer_failed(s, "task_timeout"@)
        } else {
            match t.phase {
                TransferPhase::Preparing { deadline, .. } => if now >= deadline {
                    transfer_failed(s, "prepare_timeout"@)
                } else {
                    s
                },
                TransferPhase::WaitingForReceipt { nonce, action_count, poll_at, expires_at } => {
                    if now >= expires_at {
                        transfer_failed(s, "receipt_timeout"@)
                    } else if now >= poll_at {
                        TransferState {
                            task: Some(
                                TransferView {
                                    phase: TransferPhase::ReceiptRequested {
                                        nonce,
                                        action_count,
                                        retry_at: later(now, 500),
                                        expires_at,
                                    },
                                    ..t
                                },
                            ),
                            conn: chat_sent(
                                s.conn,
                                "/"@ + t.operation.receipt_command_text() + " "@ + nonce,
                            ),
                            replies: s.replies,
                        }
                    } else {
                        s
                    }
                },
                TransferPhase::ReceiptRequested { nonce, action_count, retry_at, expires_at } => {
                    if now >= expires_at {
                        transfer_failed(s, "receipt_timeout"@)
                    } else if now >= retry_at {
                        TransferState {
                            task: Some(
                                TransferView {
                                    phase: TransferPhase::WaitingForReceipt {
                                        nonce,
                                        action_count,
                                        poll_at: now,
                                        expires_at,
                                    },
                                    ..t
                                },
                            ),
                            ..s
                        }
                    } else {
                        s
                    }
                },
                TransferPhase::Ready => s,
            }
        },
        None => s,
    }
}

/// The state before or after a call.
pub open spec fn transfer_state(
    task: Option<NativeInventoryTransferTask>,
    conn: MtpConnection,
    replies: PendingReplies,
) -> TransferState {
    TransferState { task: transfer_view(task), conn: conn@, replies: replies@ }
}

fn build_transfer_reply(
    t: &NativeInventoryTransferTask,
    status: &str,
    ok: bool,
    outcome_unknown: bool,
    error: Option<&str>,
) -> (text: String)
    ensures
        text@ == json_text(transfer_reply(t@, status@, ok, outcome_unknown, str_view(error))),
{
    let remaining: u16 = t.requested.saturating_sub(t.moved);
    let mut v = null_value();
    set_member(&mut v, "ok", bool_value(ok));
    set_member(&mut v, "status", str_value(status));
    set_member(&mut v, "container", str_value(t.operation.container_kind()));
    set_member(&mut v, "operation", str_value(t.operation.command_name()));
    set_member(
        &mut v,
        "target",
        ints3_value(t.target.x as i64, t.target.y as i64, t.target.z as i64),
    );
    set_member(&mut v, "item", str_value(t.item.as_str()));
    set_member(&mut v, "requested", int_value(t.requested as i64));
    set_member(&mut v, "moved", int_value(t.moved as i64));
    set_member(&mut v, "confirmed_moved", int_value(t.moved as i64));
    set_member(&mut v, "remaining", int_value(remaining as i64));
    set_member(&mut v, "actions", int_value(t.actions as i64));
    set_member(&mut v, "outcome_unknown", bool_value(outcome_unknown));
    set_member(&mut v, "error", opt_str_value(error));
    value_text(&v)
}

/// Ends a transfer and answers its request.
pub fn finish_native_inventory_transfer(
    task: &mut Option<NativeInventoryTransferTask>,
    replies: &mut PendingReplies,
)
    requires
        old(replies).wf(),
    ensures
        final(replies).wf(),
        *final(task) is None,
        final(replies)@ == finish_answered(transfer_view(*old(task)), old(replies)@),
{
    if let Some(t) = task.take() {
        let (status, ok, outcome_unknown) = t.result_status();
        let error = if ok { None } else { Some(status) };
        let reply = build_transfer_reply(&t, status, ok, outcome_unknown, error);
        replies.resolve(t.operation.reply_tag(), reply);
    }
}

/// Tells the server mod to forget the current action.
fn cancel_nonce(t: &NativeInventoryTransferTask, conn: &mut MtpConnection)
    requires
        old(conn).wf(),
    ensures
        final(conn).wf(),
        final(conn)@ == nonce_cancelled(old(conn)@, t@),
{
    if let Some(nonce) = t.phase.nonce() {
        let mut text = "/".to_owned();
        text.append(t.operation.cancel_command());
        text.append(" ");
        text.append(nonce.as_str());
        conn.send_chat_message(text.as_str());
    }
}

/// Ends a transfer with an error.
pub fn fail_native_inventory_transfer(
    task: &mut Option<NativeInventoryTransferTask>,
    conn: &mut MtpConnection,
    error: &str,
    replies: &mut PendingReplies,
)
    requires
        old(conn).wf(),
        old(replies).wf(),
    ensures
        final(conn).wf(),
        final(replies).wf(),
        transfer_state(*final(task), *final(conn), *final(replies)) == transfer_failed(
            transfer_state(*old(task), *old(conn), *old(replies)),
            error@,
        ),
{
    if let Some(mut t) = task.take() {
        let mut reported = error.to_owned();
        if t.phase.action_dispatched() && !error_is_unknown_outcome(&reported) {
            reported.append("_outcome_unknown");
        }
        cancel_nonce(&t, conn);
        t.last_error = Some(reported);
        *task = Some(t);
        finish_native_inventory_transfer(task, replies);
    }
}

/// Gives a transfer up; its request is told whether an action was sent.
pub fn cancel_native_inventory_transfer(
    task: &mut Option<NativeInventoryTransferTask>,
    conn: &mut MtpConnection,
    replies: &mut PendingReplies,
)
    requires
        old(conn).wf(),
        old(replies).wf(),
    ensures
        final(conn).wf(),
        final(replies).wf(),
        transfer_state(*final(task), *final(conn), *final(replies)) == transfer_cancelled(
            transfer_state(*old(task), *old(conn), *old(replies)),
        ),
{
    if let Some(t) = task.take() {
        let unknown = t.phase.action_dispatched();
        cancel_nonce(&t, conn);
        let status = if unknown { "cancelled_outcome_unknown" } else { "cancelled" };
        let reply = build_transfer_reply(&t, status, false, unknown, Some(status));
        replies.resolve(t.operation.reply_tag(), reply);
    }
}

fn make_nonce(t: &NativeInventoryTransferTask) -> (nonce: String)
    ensures
        nonce@ == next_nonce(t@),
{
    let mut nonce = String::new();
    push_hex(&mut nonce, t.id);
    nonce.append("-");
    push_dec(&mut nonce, t.actions.saturating_add(1) as i64);
    assert(nonce@ =~= next_nonce(t@));
    nonce
}

/// Prepares the next action of a transfer that is ready, or ends it.
pub fn continue_native_inventory_transfer(
    task: &mut Option<NativeInventoryTransferTask>,
    conn: &mut MtpConnection,
    replies: &mut PendingReplies,
    now: u64,
)
    requires
        old(conn).wf(),
        old(replies).wf(),
    ensures
        final(conn).wf(),
        final(replies).wf(),
        transfer_state(*final(task), *final(conn), *final(replies)) == transfer_continued(
            transfer_state(*old(task), *old(conn), *old(replies)),
            now,
        ),
{
    if let Some(mut t) = task.take() {
        let ready = match t.phase {
            NativeInventoryTransferPhase::Ready => true,
            _ => false,
        };
        if !ready {
            *task = Some(t);
            return;
        }
        if t.moved >= t.requested || t.actions >= MAX_NATIVE_INVENTORY_ACTIONS {
            *task = Some(t);
            finish_native_inventory_transfer(task, replies);
            return;
        }
        let nonce = make_nonce(&t);
        let mut text = "/".to_owned();
        text.append(t.operation.prepare_command());
        text.append(" ");
        text.append(nonce.as_str());
        text.append(" ");
        text.append(t.operation.command_name());
        text.append(" ");
        push_dec(&mut text, t.target.x as i64);
        text.append(" ");
        push_dec(&mut text, t.target.y as i64);
        text.append(" ");
        push_dec(&mut text, t.target.z as i64);
        text.append(" ");
        text.append(t.item.as_str());
        text.append(" ");
        push_dec(&mut text, (t.requested - t.moved) as i64);
        conn.send_chat_message(text.as_str());
        t.phase = NativeInventoryTransferPhase::Preparing { nonce, deadline: after_ms(now, 3000) };
        *task = Some(t);
    }
}

fn is_reply_to(t: &NativeInventoryTransferTask, v: &serde_json::Value) -> (yes: bool)
    ensures
        yes == reply_matches(t@, json_value(*v)),
{
    str_member_is(v, "operation", t.operation.command_name()) && str_member_is(
        v,
        "item",
        t.item.as_str(),
    ) && match get_position(v, "requested_target") {
        Some(pos) => pos == t.target,
        None => false,
    }
}

fn get_container_slot(v: &serde_json::Value) -> (slot: Option<u16>)
    ensures
        slot == container_slot(json_value(*v)),
{
    let found = match member(v, "container_slot") {
        Some(m) => Some(m),
        None => match member(v, "furnace_slot") {
            Some(m) => Some(m),
            None => member(v, "chest_slot"),
        },
    };
    let n: u64 = found?.as_u64()?;
    if n <= u16::MAX as u64 {
        Some(n as u16)
    } else {
        None
    }
}

fn get_source_slot(t: &NativeInventoryTransferTask, v: &serde_json::Value) -> (slot: Option<u16>)
    ensures
        slot == source_slot(t@, json_value(*v)),
{
    if t.operation.deposits_into_container() {
        get_u16(v, "player_slot")
    } else {
        get_container_slot(v)
    }
}

fn get_action_count(t: &NativeInventoryTransferTask, v: &serde_json::Value) -> (n: Option<u16>)
    ensures
        n == action_count(t@, json_value(*v)),
{
    let n: u16 = get_u16(v, "action_count")?;
    if n > 0 && n <= t.requested.saturating_sub(t.moved) {
        Some(n)
    } else {
        None
    }
}

fn list_is_expected(t: &NativeInventoryTransferTask, v: &serde_json::Value) -> (yes: bool)
    ensures
        yes == (container_list(t@, json_value(*v)) == t@.operation.expected_container_list_text()),
{
    match get_str(v, "container_list") {
        Some(list) => list.to_owned() == t.operation.expected_container_list().to_owned(),
        None => true,
    }
}

fn find_prepare_fault(t: &NativeInventoryTransferTask, v: &serde_json::Value) -> (fault: Option<
    String,
>)
    ensures
        text_view(fault) == prepare_fault(t@, json_value(*v)),
{
    if !bool_member_is_true(v, "ok") {
        return Some(get_status(v, "prepare_failed"));
    }
    if !is_reply_to(t, v) {
        return Some("prepare_mismatch".to_owned());
    }
    match get_position(v, "container_pos") {
        None => Some("prepare_missing_container_position".to_owned()),
        Some(pos) => {
            if manhattan_distance(pos, t.target) > t.operation.separation_limit() {
                Some("prepare_invalid_container_position".to_owned())
            } else if get_action_count(t, v).is_none() {
                Some("prepare_invalid_action_count".to_owned())
            } else if !list_is_expected(t, v) {
                Some("prepare_invalid_container_list".to_owned())
            } else if get_source_slot(t, v).is_none() {
                if t.operation.deposits_into_container() {
                    Some("prepare_invalid_player_slot".to_owned())
                } else {
                    Some("prepare_invalid_container_slot".to_owned())
                }
            } else {
                None
            }
        },
    }
}

/// Sends the inventory action that was prepared without a fault.
fn send_prepared_move(
    t: &NativeInventoryTransferTask,
    v: &serde_json::Value,
    conn: &mut MtpConnection,
) -> (result: Result<u16, OutboundError>)
    requires
        old(conn).wf(),
        prepare_fault(t@, json_value(*v)) is None,
    ensures
        final(conn).wf(),
        match result {
            Ok(count) => prepared_move_error(t@, json_value(*v)) is None && action_count(
                t@,
                json_value(*v),
            ) == Some(count) && final(conn)@ == sent_reliably(
                old(conn)@,
                prepared_move(t@, json_value(*v)),
            ),
            Err(e) => prepared_move_error(t@, json_value(*v)) == Some(e@) && final(conn)@ == old(conn)@,
        },
{
    let pos: IVec3 = get_position(v, "container_pos").unwrap();
    let count: u16 = get_action_count(t, v).unwrap();
    let slot: u16 = get_source_slot(t, v).unwrap();
    let list = t.operation.expected_container_list();
    if t.operation.deposits_into_container() {
        conn.send_inventory_move_somewhere(
            count,
            InventoryLocation::CurrentPlayer,
            "main",
            slot,
            InventoryLocation::NodeMeta(pos),
            list,
        )?;
    } else {
        conn.send_inventory_move_somewhere(
            count,
            InventoryLocation::NodeMeta(pos),
            list,
            slot,
            InventoryLocation::CurrentPlayer,
            "main",
        )?;
    }
    Ok(count)
}

/// Takes the reply to a preparation.
pub fn apply_inventory_prepare(
    v: &serde_json::Value,
    task: &mut Option<NativeInventoryTransferTask>,
    conn: &mut MtpConnection,
    replies: &mut PendingReplies,
    now: u64,
) -> (result: Result<(), OutboundError>)
    requires
        old(conn).wf(),
        old(replies).wf(),
    ensures
        final(conn).wf(),
        final(replies).wf(),
        match result {
            Ok(()) => transfer_prepared(
                transfer_state(*old(task), *old(conn), *old(replies)),
                json_value(*v),
                now,
            ) == Ok::<TransferState, OutboundErrorView>(
                transfer_state(*final(task), *final(conn), *final(replies)),
            ),
            Err(e) => transfer_prepared(
                transfer_state(*old(task), *old(conn), *old(replies)),
                json_value(*v),
                now,
            ) == Err::<TransferState, OutboundErrorView>(e@) && transfer_state(
                *final(task),
                *final(conn),
                *final(replies),
            ) == transfer_state(*old(task), *old(conn), *old(replies)),
        },
{
    let mut t = match task.take() {
        Some(t) => t,
        None => return Ok(()),
    };
    let nonce = match &t.phase {
        NativeInventoryTransferPhase::Preparing { nonce, .. } => nonce.clone(),
        _ => {
            *task = Some(t);
            return Ok(());
        },
    };
    if !chest_reply_has_nonce(v, nonce.as_str()) {
        *task = Some(t);
        return Ok(());
    }
    if let Some(fault) = find_prepare_fault(&t, v) {
        *task = Some(t);
        fail_native_inventory_transfer(task, conn, fault.as_str(), replies);
        return Ok(());
    }
    match send_prepared_move(&t, v, conn) {
        Ok(count) => {
            t.actions = t.actions.saturating_add(1);
            t.phase = NativeInventoryTransferPhase::WaitingForReceipt {
                nonce,
                action_count: count,
                poll_at: after_ms(now, 200),
                expires_at: after_ms(now, 4000),
            };
            *task = Some(t);
            Ok(())
        },
        Err(e) => {
            *task = Some(t);
            Err(e)
        },
    }
}

/// Takes the text of a reply to a preparation.
pub fn handle_native_inventory_prepare(
    payload: &str,
    task: &mut Option<NativeInventoryTransferTask>,
    conn: &mut MtpConnection,
    replies: &mut PendingReplies,
    now: u64,
) -> (result: Result<(), OutboundError>)
    requires
        old(conn).wf(),
        old(replies).wf(),
    ensures
        final(conn).wf(),
        final(replies).wf(),
        match parsed_json(payload@) {
            Ok(v) => match result {
                Ok(()) => transfer_prepared(
                    transfer_state(*old(task), *old(conn), *old(replies)),
                    v,
                    now,
                ) == Ok::<TransferState, OutboundErrorView>(
                    transfer_state(*final(task), *final(conn), *final(replies)),
                ),
                Err(e) => transfer_prepared(
                    transfer_state(*old(task), *old(conn), *old(replies)),
                    v,
                    now,
                ) == Err::<TransferState, OutboundErrorView>(e@) && transfer_state(
                    *final(task),
                    *final(conn),
                    *final(replies),
                ) == transfer_state(*old(task), *old(conn), *old(replies)),
            },
            Err(e) => result is Ok && transfer_state(*final(task), *final(conn), *final(replies))
                == transfer_failed(
                transfer_state(*old(task), *old(conn), *old(replies)),
                "invalid_prepare_response:"@ + e,
            ),
        },
{
    match parse_value(payload) {
        Ok(v) => apply_inventory_prepare(&v, task, conn, replies, now),
        Err(e) => {
            let mut error = "invalid_prepare_response:".to_owned();
            error.append(e.as_str());
            fail_native_inventory_transfer(task, conn, error.as_str(), replies);
            Ok(())
        },
    }
}

/// Takes a receipt.
pub fn apply_inventory_receipt(
    v: &serde_json::Value,
    task: &mut Option<NativeInventoryTransferTask>,
    conn: &mut MtpConnection,
    replies: &mut PendingReplies,
    now: u64,
)
    requires
        old(conn).wf(),
        old(replies).wf(),
    ensures
        final(conn).wf(),
        final(replies).wf(),
        transfer_state(*final(task), *final(conn), *final(replies)) == transfer_receipt(
            transfer_state(*old(task), *old(conn), *old(replies)),
            json_value(*v),
            now,
        ),
{
    let mut t = match task.take() {
        Some(t) => t,
        None => return ,
    };
    let (nonce, action_count, expires_at) = match &t.phase {
        NativeInventoryTransferPhase::ReceiptRequested {
            nonce,
            action_count,
            expires_at,
            ..
        } => (nonce.clone(), *action_count, *expires_at),
        _ => {
            *task = Some(t);
            return;
        },
    };
    if !chest_reply_has_nonce(v, nonce.as_str()) {
        *task = Some(t);
        return;
    }
    if str_member_is(v, "status", "pending") {
        t.phase = NativeInventoryTransferPhase::WaitingForReceipt {
            nonce,
            action_count,
            poll_at: after_ms(now, 200),
            expires_at,
        };
        *task = Some(t);
        return;
    }
    if !bool_member_is_true(v, "ok") {
        let status = get_status(v, "receipt_failed");
        *task = Some(t);
        fail_native_inventory_transfer(task, conn, status.as_str(), replies);
        return;
    }
    if !is_reply_to(&t, v) {
        *task = Some(t);
        fail_native_inventory_transfer(task, conn, "receipt_mismatch", replies);
        return;
    }
    let moved: u16 = match get_u16(v, "moved") {
        Some(n) if n > 0 && n <= action_count => n,
        _ => {
            *task = Some(t);
            fail_native_inventory_transfer(task, conn, "receipt_invalid_moved_count", replies);
            return;
        },
    };
    let total: u16 = t.moved.saturating_add(moved);
    t.moved = if total <= t.requested { total } else { t.requested };
    t.phase = NativeInventoryTransferPhase::Ready;
    *task = Some(t);
    continue_native_inventory_transfer(task, conn, replies, now);
}

/// Takes the text of a receipt.
pub fn handle_native_inventory_receipt(
    payload: &str,
    task: &mut Option<NativeInventoryTransferTask>,
    conn: &mut MtpConnection,
    replies: &mut PendingReplies,
    now: u64,
)
    requires
        old(conn).wf(),
        old(replies).wf(),
    ensures
        final(conn).wf(),
        final(replies).wf(),
        transfer_state(*final(task), *final(conn), *final(replies)) == match parsed_json(
            payload@,
        ) {
            Ok(v) => transfer_receipt(
                transfer_state(*old(task), *old(conn), *old(replies)),
                v,
                now,
            ),
            Err(e) => transfer_failed(
                transfer_state(*old(task), *old(conn), *old(replies)),
                "invalid_receipt_response:"@ + e,
            ),
        },
{
    match parse_value(payload) {
        Ok(v) => apply_inventory_receipt(&v, task, conn, replies, now),
        Err(e) => {
            let mut error = "invalid_receipt_response:".to_owned();
            error.append(e.as_str());
            fail_native_inventory_transfer(task, conn, error.as_str(), replies);
        },
    }
}

/// Polls for receipts and watches the deadlines.
pub fn advance_native_inventory_transfer(
    task: &mut Option<NativeInventoryTransferTask>,
    conn: &mut MtpConnection,
    replies: &mut PendingReplies,
    now: u64,
)
    requires
        old(conn).wf(),
        old(replies).wf(),
    ensures
        final(conn).wf(),
        final(replies).wf(),
        transfer_state(*final(task), *final(conn), *final(replies)) == transfer_advanced(
            transfer_state(*old(task), *old(conn), *old(replies)),
            now,
        ),
{
    let mut t = match task.take() {
        Some(t) => t,
        None => return ,
    };
    if now >= t.deadline {
        *task = Some(t);
        fail_native_inventory_transfer(task, conn, "task_timeout", replies);
        return;
    }
    let mut failure: Option<&str> = None;
    match &t.phase {
        NativeInventoryTransferPhase::Ready => {},
        NativeInventoryTransferPhase::Preparing { deadline, .. } => {
            if now >= *deadline {
                failure = Some("prepare_timeout");
            }
        },
        NativeInventoryTransferPhase::WaitingForReceipt {
            nonce,
            action_count,
            poll_at,
            expires_at,
        } => {
            if now >= *expires_at {
                failure = Some("receipt_timeout");
            } else if now >= *poll_at {
                let mut text = "/".to_owned();
                text.append(t.operation.receipt_command());
                text.append(" ");
                text.append(nonce.as_str());
                conn.send_chat_message(text.as_str());
                t.phase = NativeInventoryTransferPhase::ReceiptRequested {
                    nonce: nonce.clone(),
                    action_count: *action_count,
                    retry_at: after_ms(now, 500),
                    expires_at: *expires_at,
                };
            }
        },
        NativeInventoryTransferPhase::ReceiptRequested {
            nonce,
            action_count,
            retry_at,
            expires_at,
        } => {
            if now >= *expires_at {
                failure = Some("receipt_timeout");
            } else if now >= *retry_at {
                t.phase = NativeInventoryTransferPhase::WaitingForReceipt {
                    nonce: nonce.clone(),
                    action_count: *action_count,
                    poll_at: now,
                    expires_at: *expires_at,
                };
            }
        },
    }
    *task = Some(t);
    if let Some(error) = failure {
        fail_native_inventory_transfer(task, conn, error, replies);
    }
}

/// What holds of every transfer: no more is moved than was requested, at most the
/// allowed number of actions is sent, and an action asks for no more than is left.
pub open spec fn transfer_bounded(t: TransferView) -> bool {
    &&& t.moved <= t.requested
    &&& t.actions <= MAX_NATIVE_INVENTORY_ACTIONS
    &&& match t.phase {
        TransferPhase::Ready => true,
        TransferPhase::Preparing { .. } => t.actions < MAX_NATIVE_INVENTORY_ACTIONS,
        TransferPhase::WaitingForReceipt { action_count, .. } => 1 <= action_count
            <= t.requested - t.moved,
        TransferPhase::ReceiptRequested { action_count, .. } => 1 <= action_count
            <= t.requested - t.moved,
    }
}

pub open spec fn task_bounded(s: TransferState) -> bool {
    match s.task {
        Some(t) => transfer_bounded(t),
        None => true,
    }
}

/// A transfer stays within its bounds from its start on, whatever replies come in
/// and however much time passes.
pub proof fn transfer_stays_bounded(
    s: TransferState,
    v: JsonValue,
    now: u64,
    id: u64,
    operation: InventoryTransferOperation,
    target: IVec3,
    item: Seq<char>,
    requested: u16,
)
    requires
        task_bounded(s),
    ensures
        transfer_bounded(new_transfer(id, operation, target, item, requested, now)),
        task_bounded(transfer_continued(s, now)),
        transfer_prepared(s, v, now) is Ok ==> task_bounded(transfer_prepared(s, v, now)->Ok_0),
        task_bounded(transfer_receipt(s, v, now)),
        task_bounded(transfer_advanced(s, now)),
{
}

/// A reply that does not bear the current nonce changes nothing.
pub proof fn stale_transfer_replies_are_ignored(s: TransferState, v: JsonValue, now: u64)
    requires
        match s.task {
            Some(t) => match phase_nonce(t.phase) {
                Some(nonce) => !has_nonce(v, nonce),
                None => true,
            },
            None => true,
        },
    ensures
        transfer_prepared(s, v, now) == Ok::<TransferState, OutboundErrorView>(s),
        transfer_receipt(s, v, now) == s,
{
}

proof fn transfer_reply_members(
    t: TransferView,
    status: Seq<char>,
    ok: bool,
    outcome_unknown: bool,
    error: Option<Seq<char>>,
)
    ensures
        ({
            let r = transfer_reply(t, status, ok, outcome_unknown, error);
            &&& bool_member(r, "ok"@) == Some(ok)
            &&& bool_member(r, "outcome_unknown"@) == Some(outcome_unknown)
            &&& u64_member(r, "confirmed_moved"@) == Some(t.moved as u64)
        }),
{
    reveal_strlit("ok");
    reveal_strlit("status");
    reveal_strlit("container");
    reveal_strlit("operation");
    reveal_strlit("target");
    reveal_strlit("item");
    reveal_strlit("requested");
    reveal_strlit("moved");
    reveal_strlit("confirmed_moved");
    reveal_strlit("remaining");
    reveal_strlit("actions");
    reveal_strlit("outcome_unknown");
    reveal_strlit("error");
    assert("ok"@.len() == 2 && "status"@.len() == 6 && "container"@.len() == 9);
    assert("operation"@.len() == 9 && "target"@.len() == 6 && "item"@.len() == 4);
    assert("requested"@.len() == 9 && "moved"@.len() == 5 && "remaining"@.len() == 9);
    assert("confirmed_moved"@.len() == 15 && "outcome_unknown"@.len() == 15);
    assert("actions"@.len() == 7 && "error"@.len() == 5);
    assert("confirmed_moved"@[0] == 'c' && "outcome_unknown"@[0] == 'o');
}

/// Where an inventory action was sent and the transfer then fails or is given up,
/// the request is told that it failed and that the outcome is not known, and how
/// much is known to have been moved.
pub proof fn dispatched_transfer_reports_unknown_outcome(
    s: TransferState,
    t: TransferView,
    error: Seq<char>,
)
    requires
        s.task == Some(t),
        dispatched(t.phase),
    ensures
        ({
            let e = reported_error(t, error);
            let r = finish_reply(TransferView { last_error: Some(e), ..t });
            &&& transfer_failed(s, error).task is None
            &&& transfer_failed(s, error).replies == resolved(
                s.replies,
                t.operation.reply_tag_text(),
                json_text(r),
            )
            &&& bool_member(r, "ok"@) == Some(false)
            &&& bool_member(r, "outcome_unknown"@) == Some(true)
            &&& u64_member(r, "confirmed_moved"@) == Some(t.moved as u64)
        }),
        ({
            let status = "cancelled_outcome_unknown"@;
            let r = transfer_reply(t, status, false, true, Some(status));
            &&& transfer_cancelled(s).task is None
            &&& transfer_cancelled(s).replies == resolved(
                s.replies,
                t.operation.reply_tag_text(),
                json_text(r),
            )
            &&& bool_member(r, "ok"@) == Some(false)
            &&& bool_member(r, "outcome_unknown"@) == Some(true)
            &&& u64_member(r, "confirmed_moved"@) == Some(t.moved as u64)
        }),
{
    let e = reported_error(t, error);
    if !is_unknown_outcome(error) {
        reveal_strlit("_outcome_unknown");
        reveal_strlit("outcome_unknown");
        let tail = "outcome_unknown"@;
        assert(e.skip(e.len() - tail.len()) =~= tail);
    }
    let failed = TransferView { last_error: Some(e), ..t };
    assert(transfer_status(failed) == (e, false, true));
    transfer_reply_members(failed, e, false, true, Some(e));
    let status = "cancelled_outcome_unknown"@;
    transfer_reply_members(t, status, false, true, Some(status));
}

/// Whenever a transfer ends, the request that waits for it is answered.
pub proof fn ended_transfer_is_answered(s: TransferState, t: TransferView, v: JsonValue, now: u64)
    requires
        s.task == Some(t),
    ensures
        transfer_advanced(s, now).task is None ==> transfer_answered(s, t, transfer_advanced(s, now)),
        transfer_receipt(s, v, now).task is None ==> transfer_answered(
            s,
            t,
            transfer_receipt(s, v, now),
        ),
        match transfer_prepared(s, v, now) {
            Ok(after) => after.task is None ==> transfer_answered(s, t, after),
            Err(_) => true,
        },
        transfer_answered(s, t, transfer_cancelled(s)),
{
    resolving_answers(s.replies, t.operation.reply_tag_text());
}

/// Nobody waits for the transfer's reply any more, and whoever listened for it has got one.
pub open spec fn transfer_answered(
    before: TransferState,
    t: TransferView,
    after: TransferState,
) -> bool {
    let tag = t.operation.reply_tag_text();
    &&& !after.replies.waiting.dom().contains(tag)
    &&& listened_for(before.replies, tag) ==> after.replies.delivered.len()
        == before.replies.delivered.len() + 1 && after.replies.delivered.last().0
        == before.replies.waiting[tag].ticket
}

proof fn resolving_answers(r: RepliesView, tag: Seq<char>)
    ensures
        forall|payload: Seq<char>|
            !(#[trigger] resolved(r, tag, payload)).waiting.dom().contains(tag) && (
            listened_for(r, tag) ==> resolved(r, tag, payload).delivered.len()
                == r.delivered.len() + 1 && resolved(r, tag, payload).delivered.last().0
                == r.waiting[tag].ticket),
{
}

/// Two actions of one transfer, or of transfers with different numbers, bear
/// different nonces.
pub proof fn transfer_nonces_are_distinct(a: TransferView, b: TransferView)
    requires
        a.actions < u8::MAX,
        b.actions < u8::MAX,
        a.id != b.id || a.actions != b.actions,
    ensures
        next_nonce(a) != next_nonce(b),
{
    if next_nonce(a) == next_nonce(b) {
        reveal_strlit("-");
        let x = hex_digits(a.id as nat);
        let y = hex_digits(b.id as nat);
        let p = dec_digits((a.actions + 1) as nat);
        let q = dec_digits((b.actions + 1) as nat);
        let whole = next_nonce(a);
        hex_digits_injective(a.id as nat, b.id as nat);
        hex_digits_injective(b.id as nat, a.id as nat);
        dec_digits_injective((a.actions + 1) as nat, (b.actions + 1) as nat);
        assert(whole =~= x + seq!['-'] + p);
        assert(whole =~= y + seq!['-'] + q);
        assert(whole[x.len() as int] == '-');
        assert(whole[y.len() as int] == '-');
        if x.len() < y.len() {
            assert(whole[x.len() as int] == y[x.len() as int]);
        }
        if y.len() < x.len() {
            assert(whole[y.len() as int] == x[y.len() as int]);
        }
        assert(x =~= whole.take(x.len() as int));
        assert(y =~= whole.take(x.len() as int));
        assert(p =~= whole.skip(x.len() as int + 1));
        assert(q =~= whole.skip(x.len() as int + 1));
    }
}

/// What whoever waits for a transfer is told when it ends with so many items moved.
pub open spec fn told_of_transfer(
    before: RepliesView,
    after: RepliesView,
    t: TransferView,
    moved: int,
    ok: bool,
    status: Seq<char>,
    unknown: bool,
) -> bool {
    exists|r: JsonValue|
        {
            &&& after == resolved(before, t.operation.reply_tag_text(), #[trigger] json_text(r))
            &&& bool_member(r, "ok"@) == Some(ok)
            &&& str_member(r, "status"@) == Some(status)
            &&& str_member(r, "container"@) == Some(t.operation.container_kind_text())
            &&& str_member(r, "operation"@) == Some(t.operation.command_name_text())
            &&& position_member(r, "target"@) == Some(t.target)
            &&& str_member(r, "item"@) == Some(t.item)
            &&& u64_member(r, "requested"@) == Some(t.requested as u64)
            &&& u64_member(r, "moved"@) == Some(moved as u64)
            &&& u64_member(r, "confirmed_moved"@) == Some(moved as u64)
            &&& u64_member(r, "remaining"@) == Some(
                if moved < t.requested {
                    (t.requested - moved) as u64
                } else {
                    0u64
                },
            )
            &&& u64_member(r, "actions"@) == Some(t.actions as u64)
            &&& bool_member(r, "outcome_unknown"@) == Some(unknown)
            &&& str_member(r, "error"@) == if ok {
                None
            } else {
                Some(status)
            }
        }
}

proof fn transfer_reply_every_member(
    before: RepliesView,
    t: TransferView,
    status: Seq<char>,
    ok: bool,
    unknown: bool,
)
    ensures
        told_of_transfer(
            before,
            resolved(
                before,
                t.operation.reply_tag_text(),
                json_text(
                    transfer_reply(
                        t,
                        status,
                        ok,
                        unknown,
                        if ok {
                            None
                        } else {
                            Some(status)
                        },
                    ),
                ),
            ),
            t,
            t.moved as int,
            ok,
            status,
            unknown,
        ),
{
    reveal_strlit("ok");
    reveal_strlit("status");
    reveal_strlit("container");
    reveal_strlit("operation");
    reveal_strlit("target");
    reveal_strlit("item");
    reveal_strlit("requested");
    reveal_strlit("moved");
    reveal_strlit("confirmed_moved");
    reveal_strlit("remaining");
    reveal_strlit("actions");
    reveal_strlit("outcome_unknown");
    reveal_strlit("error");
    assert("ok"@.len() == 2 && "status"@.len() == 6 && "container"@.len() == 9);
    assert("operation"@.len() == 9 && "target"@.len() == 6 && "item"@.len() == 4);
    assert("requested"@.len() == 9 && "moved"@.len() == 5 && "remaining"@.len() == 9);
    assert("confirmed_moved"@.len() == 15 && "outcome_unknown"@.len() == 15);
    assert("actions"@.len() == 7 && "error"@.len() == 5);
    assert("confirmed_moved"@[0] == 'c' && "outcome_unknown"@[0] == 'o');
    assert("status"@[0] == 's' && "target"@[0] == 't' && "moved"@[0] == 'm' && "error"@[0] == 'e');
    assert("container"@[0] == 'c' && "operation"@[0] == 'o');
    assert("requested"@[2] == 'q' && "remaining"@[2] == 'm' && "requested"@[0] == 'r'
        && "remaining"@[0] == 'r');
    let error = if ok {
        None
    } else {
        Some(status)
    };
    let r = transfer_reply(t, status, ok, unknown, error);
    assert(bool_member(r, "ok"@) == Some(ok));
    assert(u64_member(r, "moved"@) == Some(t.moved as u64));
    assert(member_of(r, "target"@) == Some(
        ints3(t.target.x as int, t.target.y as int, t.target.z as int),
    ));
    assert(position_member(r, "target"@) == Some(t.target));
    assert(json_text(r) == json_text(r));
}

/// So many items are moved now, and no action is under way: what is still missing is asked
/// for, or, where nothing is missing or eight actions were sent, the transfer ends.
/// It ends as completed exactly where all that was requested is moved.
pub open spec fn transfer_goes_on(
    s: TransferState,
    t: TransferView,
    after: TransferState,
    moved: int,
    now: u64,
) -> bool {
    if moved < t.requested && t.actions < 8 {
        let nonce = hex(t.id as int) + "-"@ + dec(t.actions + 1);
        &&& after.task is Some
        &&& after.task->0.moved == moved
        &&& after.task->0.id == t.id
        &&& after.task->0.operation == t.operation
        &&& after.task->0.target == t.target
        &&& after.task->0.item == t.item
        &&& after.task->0.requested == t.requested
        &&& after.task->0.actions == t.actions
        &&& after.task->0.deadline == t.deadline
        &&& after.task->0.last_error == t.last_error
        &&& after.task->0.phase is Preparing
        &&& phase_nonce(after.task->0.phase) == Some(nonce)
        &&& now + 3000 <= u64::MAX ==> after.task->0.phase->deadline == now + 3000
        &&& after.conn == chat_sent(
            s.conn,
            "/"@ + t.operation.prepare_command_text() + " "@ + nonce + " "@
                + t.operation.command_name_text() + " "@ + dec(t.target.x as int) + " "@ + dec(
                t.target.y as int,
            ) + " "@ + dec(t.target.z as int) + " "@ + t.item + " "@ + dec(t.requested - moved),
        )
        &&& after.replies == s.replies
    } else {
        let unknown = t.last_error is Some && is_unknown_outcome(t.last_error->0);
        &&& after.task is None
        &&& after.conn == s.conn
        &&& told_of_transfer(
            s.replies,
            after.replies,
            t,
            moved,
            moved > 0 && !unknown || moved >= t.requested && !unknown,
            if unknown {
                t.last_error->0
            } else if moved >= t.requested {
                t.operation.completed_status_text()
            } else if moved > 0 {
                t.operation.partial_status_text()
            } else if t.last_error is Some {
                t.last_error->0
            } else {
                "transfer_failed"@
            },
            unknown,
        )
    }
}

/// A transfer whose action is settled goes on with what is still missing.
pub proof fn ready_transfer_asks_for_what_is_missing(s: TransferState, t: TransferView, now: u64)
    requires
        s.task == Some(t),
        t.phase is Ready,
        transfer_bounded(t),
    ensures
        transfer_goes_on(s, t, transfer_continued(s, now), t.moved as int, now),
{
    let (status, ok, unknown) = transfer_status(t);
    transfer_reply_every_member(s.replies, t, status, ok, unknown);
}

/// The number of items that a receipt moves: what it says, where it is for the action that
/// is under way, is not pending, is `ok`, and names the same transfer and a number
/// of items that the action can have moved.
pub open spec fn received(t: TransferView, v: JsonValue) -> int {
    match t.phase {
        TransferPhase::ReceiptRequested { nonce, action_count, .. } => if {
            &&& str_member(v, "nonce"@) == Some(nonce)
            &&& str_member(v, "status"@) != Some("pending"@)
            &&& bool_member(v, "ok"@) == Some(true)
            &&& str_member(v, "operation"@) == Some(t.operation.command_name_text())
            &&& str_member(v, "item"@) == Some(t.item)
            &&& position_member(v, "requested_target"@) == Some(t.target)
            &&& u64_member(v, "moved"@) is Some
            &&& 1 <= u64_member(v, "moved"@)->0 <= action_count
        } {
            u64_member(v, "moved"@)->0 as int
        } else {
            0
        },
        _ => 0,
    }
}

/// A receipt that says so many items were moved raises the count by exactly that number;
/// the transfer then goes on with what is missing, or ends with that count.
pub proof fn receipt_raises_moved_by_its_count(
    s: TransferState,
    t: TransferView,
    v: JsonValue,
    now: u64,
)
    requires
        s.task == Some(t),
        transfer_bounded(t),
        received(t, v) > 0,
    ensures
        t.moved + received(t, v) <= t.requested,
        transfer_goes_on(s, t, transfer_receipt(s, v, now), t.moved + received(t, v), now),
{
    let n = received(t, v);
    let counted = TransferView { moved: (t.moved + n) as u16, phase: TransferPhase::Ready, ..t };
    assert(transfer_receipt(s, v, now) == transfer_continued(
        TransferState { task: Some(counted), ..s },
        now,
    ));
    ready_transfer_asks_for_what_is_missing(
        TransferState { task: Some(counted), ..s },
        counted,
        now,
    );
}

/// A receipt that moves nothing leaves the count as it is. One for another action, or that
/// nobody asked for, changes nothing at all; one that is pending is asked for again; every
/// other one is a failure.
pub proof fn other_receipts_move_nothing(
    s: TransferState,
    t: TransferView,
    v: JsonValue,
    now: u64,
)
    requires
        s.task == Some(t),
        received(t, v) == 0,
    ensures
        ({
            let after = transfer_receipt(s, v, now);
            match t.phase {
                TransferPhase::ReceiptRequested { nonce, action_count, expires_at, .. } => {
                    if str_member(v, "nonce"@) != Some(nonce) {
                        after == s
                    } else if str_member(v, "status"@) == Some("pending"@) {
                        &&& after.conn == s.conn
                        &&& after.replies == s.replies
                        &&& after.task is Some
                        &&& now + 200 <= u64::MAX ==> after.task == Some(
                            TransferView {
                                phase: TransferPhase::WaitingForReceipt {
                                    nonce,
                                    action_count,
                                    poll_at: (now + 200) as u64,
                                    expires_at,
                                },
                                ..t
                            },
                        )
                        &&& after.task->0.moved == t.moved
                    } else if bool_member(v, "ok"@) != Some(true) {
                        after == transfer_failed(
                            s,
                            if str_member(v, "status"@) is Some {
                                str_member(v, "status"@)->0
                            } else {
                                "receipt_failed"@
                            },
                        )
                    } else {
                        after == transfer_failed(s, "receipt_mismatch"@) || after
                            == transfer_failed(s, "receipt_invalid_moved_count"@)
                    }
                },
                _ => after == s,
            }
        }),
{
}

/// Something that happens to a transfer.
#[allow(inconsistent_fields)]
pub ghost enum TransferInput {
    Begin,
    Prepared(JsonValue),
    Receipt(JsonValue),
    Time,
}

/// Something that happens to a transfer, when, and what the connection and the waiting
/// requests are by that time.
pub ghost struct TransferEvent {
    pub conn: ConnectionView,
    pub replies: RepliesView,
    pub now: u64,
    pub input: TransferInput,
}

/// The transfer after an event.
pub open spec fn after_event(task: Option<TransferView>, e: TransferEvent) -> Option<TransferView> {
    let s = TransferState { task, conn: e.conn, replies: e.replies };
    match e.input {
        TransferInput::Begin => transfer_continued(s, e.now).task,
        TransferInput::Prepared(v) => match transfer_prepared(s, v, e.now) {
            Ok(after) => after.task,
            Err(_) => task,
        },
        TransferInput::Receipt(v) => transfer_receipt(s, v, e.now).task,
        TransferInput::Time => transfer_advanced(s, e.now).task,
    }
}

/// The transfer after some events, the first one first.
pub open spec fn after_events(task: Option<TransferView>, events: Seq<TransferEvent>) -> Option<
    TransferView,
>
    decreases events.len(),
{
    if events.len() == 0 {
        task
    } else {
        after_event(after_events(task, events.drop_last()), events.last())
    }
}

/// The number of items in the receipts that are accepted in the course of some events.
pub open spec fn receipts_total(task: Option<TransferView>, events: Seq<TransferEvent>) -> int
    decreases events.len(),
{
    if events.len() == 0 {
        0
    } else {
        let before = after_events(task, events.drop_last());
        receipts_total(task, events.drop_last()) + match (before, events.last().input) {
            (Some(t), TransferInput::Receipt(v)) => received(t, v),
            _ => 0,
        }
    }
}

proof fn event_counts_its_receipt(t: TransferView, e: TransferEvent)
    requires
        transfer_bounded(t),
    ensures
        match after_event(Some(t), e) {
            Some(after) => transfer_bounded(after) && after.requested == t.requested && after.moved
                == t.moved + match e.input {
                TransferInput::Receipt(v) => received(t, v),
                _ => 0,
            },
            None => true,
        },
{
    let s = TransferState { task: Some(t), conn: e.conn, replies: e.replies };
    if let TransferInput::Receipt(v) = e.input {
        if received(t, v) > 0 {
            receipt_raises_moved_by_its_count(s, t, v, e.now);
        } else {
            other_receipts_move_nothing(s, t, v, e.now);
        }
    }
}

/// At any time the number of items that a transfer has moved is the sum of the counts in
/// the receipts that were accepted since its start.
pub proof fn moved_is_the_sum_of_the_receipts(
    id: u64,
    operation: InventoryTransferOperation,
    target: IVec3,
    item: Seq<char>,
    requested: u16,
    start: u64,
    events: Seq<TransferEvent>,
)
    ensures
        ({
            let fresh = new_transfer(id, operation, target, item, requested, start);
            match after_events(Some(fresh), events) {
                Some(t) => {
                    &&& t.moved == receipts_total(Some(fresh), events)
                    &&& t.requested == requested
                    &&& t.moved <= requested
                },
                None => true,
            }
        }),
{
    sum_of_the_receipts_so_far(id, operation, target, item, requested, start, events);
}

proof fn no_task_stays_none(task: Option<TransferView>, e: TransferEvent)
    requires
        task is None,
    ensures
        after_event(task, e) is None,
{
}

proof fn sum_of_the_receipts_so_far(
    id: u64,
    operation: InventoryTransferOperation,
    target: IVec3,
    item: Seq<char>,
    requested: u16,
    start: u64,
    events: Seq<TransferEvent>,
)
    ensures
        ({
            let fresh = new_transfer(id, operation, target, item, requested, start);
            match after_events(Some(fresh), events) {
                Some(t) => {
                    &&& t.moved == receipts_total(Some(fresh), events)
                    &&& t.requested == requested
                    &&& transfer_bounded(t)
                },
                None => true,
            }
        }),
    decreases events.len(),
{
    let fresh = new_transfer(id, operation, target, item, requested, start);
    if events.len() > 0 {
        let before = events.drop_last();
        sum_of_the_receipts_so_far(id, operation, target, item, requested, start, before);
        match after_events(Some(fresh), before) {
            Some(t) => event_counts_its_receipt(t, events.last()),
            None => no_task_stays_none(None, events.last()),
        }
    }
}

/// A transfer that is told to be completed has moved all that was requested: the
/// receipts so far and the last one add up to it.
pub proof fn completion_needs_the_whole_sum(
    id: u64,
    operation: InventoryTransferOperation,
    target: IVec3,
    item: Seq<char>,
    requested: u16,
    start: u64,
    events: Seq<TransferEvent>,
    s: TransferState,
    v: JsonValue,
    now: u64,
)
    requires
        ({
            let fresh = new_transfer(id, operation, target, item, requested, start);
            &&& s.task == after_events(Some(fresh), events)
            &&& s.task is Some
            &&& received(s.task->0, v) > 0
        }),
    ensures
        ({
            let fresh = new_transfer(id, operation, target, item, requested, start);
            let total = receipts_total(Some(fresh), events) + received(s.task->0, v);
            transfer_goes_on(s, s.task->0, transfer_receipt(s, v, now), total, now)
        }),
{
    sum_of_the_receipts_so_far(id, operation, target, item, requested, start, events);
    receipt_raises_moved_by_its_count(s, s.task->0, v, now);
}

/// The action that is sent for an accepted preparation is the one that the reply
/// describes: its count, at most what is missing, leaves the slot that the reply
/// names, from the player into the container for a deposit and the other way for
/// a withdrawal.
pub proof fn actions_are_as_the_reply_says(
    s: TransferState,
    t: TransferView,
    v: JsonValue,
    now: u64,
)
    requires
        s.task == Some(t),
        t.phase is Preparing,
        str_member(v, "nonce"@) == phase_nonce(t.phase),
        transfer_bounded(t),
        prepare_fault(t, v) is None,
        transfer_prepared(s, v, now) is Ok,
        now + 4000 <= u64::MAX,
    ensures
        ({
            let after = transfer_prepared(s, v, now)->Ok_0;
            let n = u64_member(v, "action_count"@)->0;
            let pos = position_member(v, "container_pos"@)->0;
            let named = if member_of(v, "container_slot"@) is Some {
                u64_member(v, "container_slot"@)
            } else if member_of(v, "furnace_slot"@) is Some {
                u64_member(v, "furnace_slot"@)
            } else {
                u64_member(v, "chest_slot"@)
            };
            let inward = t.operation is ChestDeposit || t.operation is FurnaceInput
                || t.operation is FurnaceFuel;
            let slot = if inward {
                u64_member(v, "player_slot"@)
            } else {
                named
            };
            let list = if t.operation is FurnaceInput {
                "src"@
            } else if t.operation is FurnaceFuel {
                "fuel"@
            } else if t.operation is FurnaceOutput {
                "dst"@
            } else {
                "main"@
            };
            &&& bool_member(v, "ok"@) == Some(true)
            &&& str_member(v, "operation"@) == Some(t.operation.command_name_text())
            &&& str_member(v, "item"@) == Some(t.item)
            &&& position_member(v, "requested_target"@) == Some(t.target)
            &&& position_member(v, "container_pos"@) is Some
            &&& manhattan(pos, t.target) <= if t.operation is ChestDeposit
                || t.operation is ChestWithdraw {
                1int
            } else {
                0int
            }
            &&& u64_member(v, "action_count"@) is Some
            &&& 1 <= n <= t.requested - t.moved
            &&& slot is Some && slot->0 <= 65535
            &&& str_member(v, "container_list"@) is Some ==> str_member(v, "container_list"@)
                == Some(list)
            &&& after.conn == sent_reliably(
                s.conn,
                if inward {
                    move_somewhere_payload(
                        n as u16,
                        InventoryLocation::CurrentPlayer,
                        "main"@,
                        slot->0 as u16,
                        InventoryLocation::NodeMeta(pos),
                        list,
                    )
                } else {
                    move_somewhere_payload(
                        n as u16,
                        InventoryLocation::NodeMeta(pos),
                        list,
                        slot->0 as u16,
                        InventoryLocation::CurrentPlayer,
                        "main"@,
                    )
                },
            )
            &&& after.replies == s.replies
            &&& after.task == Some(
                TransferView {
                    actions: (t.actions + 1) as u8,
                    phase: TransferPhase::WaitingForReceipt {
                        nonce: phase_nonce(t.phase)->0,
                        action_count: n as u16,
                        poll_at: (now + 200) as u64,
                        expires_at: (now + 4000) as u64,
                    },
                    ..t
                },
            )
        }),
{
}

/// A preparation is accepted wherever its reply is right.
pub proof fn right_preparation_is_accepted(t: TransferView, v: JsonValue)
    requires
        transfer_bounded(t),
        bool_member(v, "ok"@) == Some(true),
        str_member(v, "operation"@) == Some(t.operation.command_name_text()),
        str_member(v, "item"@) == Some(t.item),
        position_member(v, "requested_target"@) == Some(t.target),
        position_member(v, "container_pos"@) == Some(t.target),
        u64_member(v, "action_count"@) is Some,
        1 <= u64_member(v, "action_count"@)->0 <= t.requested - t.moved,
        str_member(v, "container_list"@) is None || str_member(v, "container_list"@) == Some(
            t.operation.expected_container_list_text(),
        ),
        t.operation.deposits() ==> u64_member(v, "player_slot"@) is Some && u64_member(
            v,
            "player_slot"@,
        )->0 <= 65535,
        !t.operation.deposits() ==> u64_member(v, "container_slot"@) is Some && u64_member(
            v,
            "container_slot"@,
        )->0 <= 65535,
    ensures
        prepare_fault(t, v) is None,
{
    assert(manhattan(t.target, t.target) == 0);
}

/// The receipt is asked for by the nonce of the action, again and again until the time
/// is up.
pub proof fn receipts_are_asked_for(
    s: TransferState,
    t: TransferView,
    now: u64,
)
    requires
        s.task == Some(t),
        dispatched(t.phase),
        now < t.deadline,
        now + 500 <= u64::MAX,
    ensures
        ({
            let after = transfer_advanced(s, now);
            match t.phase {
                TransferPhase::WaitingForReceipt { nonce, action_count, poll_at, expires_at } => {
                    if now >= expires_at {
                        after == transfer_failed(s, "receipt_timeout"@)
                    } else if now < poll_at {
                        after == s
                    } else {
                        &&& after.conn == chat_sent(
                            s.conn,
                            if t.operation is ChestDeposit || t.operation is ChestWithdraw {
                                "/"@ + "bot_chest_receipt"@ + " "@ + nonce
                            } else {
                                "/"@ + "bot_furnace_receipt"@ + " "@ + nonce
                            },
                        )
                        &&& after.replies == s.replies
                        &&& after.task == Some(
                            TransferView {
                                phase: TransferPhase::ReceiptRequested {
                                    nonce,
                                    action_count,
                                    retry_at: (now + 500) as u64,
                                    expires_at,
                                },
                                ..t
                            },
                        )
                    }
                },
                TransferPhase::ReceiptRequested { nonce, action_count, retry_at, expires_at } => {
                    if now >= expires_at {
                        after == transfer_failed(s, "receipt_timeout"@)
                    } else if now < retry_at {
                        after == s
                    } else {
                        &&& after.conn == s.conn
                        &&& after.replies == s.replies
                        &&& after.task == Some(
                            TransferView {
                                phase: TransferPhase::WaitingForReceipt {
                                    nonce,
                                    action_count,
                                    poll_at: now,
                                    expires_at,
                                },
                                ..t
                            },
                        )
                    }
                },
                _ => false,
            }
        }),
{
}

/// A transfer that fails, or is given up, is over: the action that is under way is
/// withdrawn by its nonce, and the request is told how much was moved so far.
pub proof fn failed_transfer_reports_what_was_moved(
    s: TransferState,
    t: TransferView,
    error: Seq<char>,
)
    requires
        s.task == Some(t),
        t.moved < t.requested,
    ensures
        ({
            let withdrawn = match t.phase {
                TransferPhase::Ready => s.conn,
                _ => chat_sent(
                    s.conn,
                    if t.operation is ChestDeposit || t.operation is ChestWithdraw {
                        "/"@ + "bot_chest_cancel"@ + " "@ + phase_nonce(t.phase)->0
                    } else {
                        "/"@ + "bot_furnace_cancel"@ + " "@ + phase_nonce(t.phase)->0
                    },
                ),
            };
            let sent = t.phase is WaitingForReceipt || t.phase is ReceiptRequested;
            let full = if sent && !is_unknown_outcome(error) {
                error + "_outcome_unknown"@
            } else {
                error
            };
            let unknown = is_unknown_outcome(full);
            let failed = transfer_failed(s, error);
            let cancelled = transfer_cancelled(s);
            &&& failed.task is None && cancelled.task is None
            &&& failed.conn == withdrawn && cancelled.conn == withdrawn
            &&& told_of_transfer(
                s.replies,
                failed.replies,
                t,
                t.moved as int,
                t.moved > 0 && !unknown,
                if t.moved > 0 && !unknown {
                    t.operation.partial_status_text()
                } else {
                    full
                },
                unknown,
            )
            &&& told_of_transfer(
                s.replies,
                cancelled.replies,
                t,
                t.moved as int,
                false,
                if sent {
                    "cancelled_outcome_unknown"@
                } else {
                    "cancelled"@
                },
                sent,
            )
        }),
{
    let failed = TransferView { last_error: Some(reported_error(t, error)), ..t };
    let (status, ok, unknown) = transfer_status(failed);
    transfer_reply_every_member(s.replies, failed, status, ok, unknown);
    let sent = dispatched(t.phase);
    let why = if sent {
        "cancelled_outcome_unknown"@
    } else {
        "cancelled"@
    };
    transfer_reply_every_member(s.replies, t, why, false, sent);
    let cancelled = transfer_cancelled(s);
    assert(told_of_transfer(s.replies, cancelled.replies, t, t.moved as int, false, why, sent));
}

/// The texts that belong to each operation.
pub proof fn operations_keep_their_texts(o: InventoryTransferOperation)
    ensures
        ({
            let chest = o is ChestDeposit || o is ChestWithdraw;
            &&& o.container_kind_text() == if chest { "chest"@ } else { "furnace"@ }
            &&& o.prepare_command_text() == if chest {
                "bot_chest_prepare"@
            } else {
                "bot_furnace_prepare"@
            }
            &&& o.prepare_tag_text() == if chest {
                "BOT_CHEST_PREPARE"@
            } else {
                "BOT_FURNACE_PREPARE"@
            }
            &&& o.receipt_tag_text() == if chest {
                "BOT_CHEST_RECEIPT"@
            } else {
                "BOT_FURNACE_RECEIPT"@
            }
            &&& o is ChestDeposit ==> o.command_name_text() == "deposit"@ && o.reply_tag_text()
                == "BOT_CHEST_DEPOSIT"@ && o.completed_status_text() == "deposited"@
                && o.partial_status_text() == "partially_deposited"@
            &&& o is ChestWithdraw ==> o.command_name_text() == "withdraw"@ && o.reply_tag_text()
                == "BOT_CHEST_WITHDRAW"@ && o.completed_status_text() == "withdrawn"@
                && o.partial_status_text() == "partially_withdrawn"@
            &&& o is FurnaceInput ==> o.command_name_text() == "input"@ && o.reply_tag_text()
                == "BOT_FURNACE_INPUT"@ && o.completed_status_text() == "input_loaded"@
                && o.partial_status_text() == "input_partially_loaded"@
            &&& o is FurnaceFuel ==> o.command_name_text() == "fuel"@ && o.reply_tag_text()
                == "BOT_FURNACE_FUEL"@ && o.completed_status_text() == "fuel_loaded"@
                && o.partial_status_text() == "fuel_partially_loaded"@
            &&& o is FurnaceOutput ==> o.command_name_text() == "output"@ && o.reply_tag_text()
                == "BOT_FURNACE_OUTPUT"@ && o.completed_status_text() == "output_collected"@
                && o.partial_status_text() == "output_partially_collected"@
        }),
{
}

/// A transfer that takes too long has failed: as a whole after its own deadline, a preparation after
/// its own.
pub proof fn slow_transfers_fail(s: TransferState, t: TransferView, now: u64)
    requires
        s.task == Some(t),
    ensures
        now >= t.deadline ==> transfer_advanced(s, now) == transfer_failed(s, "task_timeout"@),
        now < t.deadline && t.phase is Ready ==> transfer_advanced(s, now) == s,
        now < t.deadline ==> match t.phase {
            TransferPhase::Preparing { deadline, .. } => transfer_advanced(s, now) == if now
                < deadline {
                s
            } else {
                transfer_failed(s, "prepare_timeout"@)
            },
            _ => true,
        },
{
}

/// A preparation that is refused fails the transfer for the first thing that is wrong with it.
pub proof fn wrong_preparations_are_refused(
    s: TransferState,
    t: TransferView,
    v: JsonValue,
    now: u64,
)
    requires
        s.task == Some(t),
        t.phase is Preparing,
        str_member(v, "nonce"@) == phase_nonce(t.phase),
    ensures
        bool_member(v, "ok"@) != Some(true) ==> transfer_prepared(s, v, now) == Ok::<
            TransferState,
            OutboundErrorView,
        >(
            transfer_failed(
                s,
                if str_member(v, "status"@) is Some {
                    str_member(v, "status"@)->0
                } else {
                    "prepare_failed"@
                },
            ),
        ),
        bool_member(v, "ok"@) == Some(true) && (str_member(v, "operation"@) != Some(
            t.operation.command_name_text(),
        ) || str_member(v, "item"@) != Some(t.item) || position_member(v, "requested_target"@)
            != Some(t.target)) ==> transfer_prepared(s, v, now) == Ok::<
            TransferState,
            OutboundErrorView,
        >(transfer_failed(s, "prepare_mismatch"@)),
        transfer_prepared(s, v, now) is Err ==> prepare_fault(t, v) is None,
{
}

} // verus!
