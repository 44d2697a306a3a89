//! A self-test of the protected channel: damaged, replayed and misdirected frames
//! must be refused. This module says which frames to try, how to damage them, what
//! a misbehaving relay passes on, and what the outcomes prove.

use crate::dytallix_identity::{same_bytes, texts};
use crate::error::{QlinkError, QlinkErrorView, Result, error_text, protocol};
use crate::mesh_connection::PathKind;
use crate::outside::{
    base64_decode, base64_encode, base64_standard, byte_or_zero, sextet, standard_char,
};
use crate::text::{decimal, join2, join3, push_decimal, same_text};
use crate::time::Instant;
use vstd::prelude::*;
use vstd::string::*;

verus! {

/// One line of the report.
#[derive(Debug, Clone)]
pub struct AttackRow {
    pub name: String,
    pub layer: String,
    pub expected: String,
    pub observed: String,
    pub pass: bool,
}

/// The model of an [`AttackRow`].
pub struct AttackRowView {
    pub name: Seq<char>,
    pub layer: Seq<char>,
    pub expected: Seq<char>,
    pub observed: Seq<char>,
    pub pass: bool,
}

impl View for AttackRow {
    type V = AttackRowView;

    open spec fn view(&self) -> AttackRowView {
        AttackRowView {
            name: self.name@,
            layer: self.layer@,
            expected: self.expected@,
            observed: self.observed@,
            pass: self.pass,
        }
    }
}

/// The models of a report.
pub open spec fn row_views(rows: Seq<AttackRow>) -> Seq<AttackRowView> {
    Seq::new(rows.len(), |i: int| rows[i]@)
}

// ---------------------------------------------------------------------------
// Damaged frames
// ---------------------------------------------------------------------------

/// Where the version stands, behind the magic.
pub const FRAME_VERSION_AT: usize = 6;

/// Where the eight bytes of the counter start.
pub const FRAME_COUNTER_AT: usize = 7;

/// Where the four bytes of the ciphertext length start.
pub const FRAME_LENGTH_AT: usize = 15;

/// The bytes ahead of the ciphertext.
pub const FRAME_HEADER_LEN: usize = 19;

/// A way to damage a protected frame.
#[derive(Debug, Clone, Copy, PartialEq, Eq, Structural)]
pub enum FrameFault {
    TamperTag,
    TamperCiphertext,
    TamperHeaderCounter,
    BadMagic,
    BadVersion,
    ZeroCounter,
    TruncateTag,
    InflateLength,
}

/// A frame after the damage.
pub open spec fn damaged(fault: FrameFault, frame: Seq<u8>) -> Seq<u8> {
    match fault {
        FrameFault::TamperTag => frame.update(frame.len() - 1, frame.last() ^ 0x01),
        FrameFault::TamperCiphertext => frame.update(
            FRAME_HEADER_LEN as int,
            frame[FRAME_HEADER_LEN as int] ^ 0x01,
        ),
        FrameFault::TamperHeaderCounter => frame.update(
            FRAME_COUNTER_AT as int,
            frame[FRAME_COUNTER_AT as int] ^ 0x01,
        ),
        FrameFault::BadMagic => frame.update(0, frame[0] ^ 0xFF),
        FrameFault::BadVersion => frame.update(FRAME_VERSION_AT as int, 0xFF),
        FrameFault::ZeroCounter => Seq::new(
            frame.len(),
            |i: int|
                if FRAME_COUNTER_AT <= i < FRAME_LENGTH_AT {
                    0
                } else {
                    frame[i]
                },
        ),
        FrameFault::TruncateTag => frame.subrange(0, frame.len() - 16),
        FrameFault::InflateLength => frame.update(FRAME_LENGTH_AT as int, 0xFF),
    }
}

/// Damages a frame that has a header and something behind it.
pub fn damage(fault: FrameFault, frame: &mut Vec<u8>)
    requires
        old(frame)@.len() > FRAME_HEADER_LEN,
    ensures
        final(frame)@ == damaged(fault, old(frame)@),
{
    match fault {
        FrameFault::TamperTag => {
            let n: usize = frame.len();
            let byte: u8 = frame[n - 1];
            frame.set(n - 1, byte ^ 0x01);
        },
        FrameFault::TamperCiphertext => {
            let byte: u8 = frame[FRAME_HEADER_LEN];
            frame.set(FRAME_HEADER_LEN, byte ^ 0x01);
        },
        FrameFault::TamperHeaderCounter => {
            let byte: u8 = frame[FRAME_COUNTER_AT];
            frame.set(FRAME_COUNTER_AT, byte ^ 0x01);
        },
        FrameFault::BadMagic => {
            let byte: u8 = frame[0];
            frame.set(0, byte ^ 0xFF);
        },
        FrameFault::BadVersion => {
            frame.set(FRAME_VERSION_AT, 0xFF);
        },
        FrameFault::ZeroCounter => {
            let mut i: usize = FRAME_COUNTER_AT;
            while i < FRAME_LENGTH_AT
                invariant
                    FRAME_COUNTER_AT <= i <= FRAME_LENGTH_AT,
                    frame@.len() == old(frame)@.len(),
                    frame@.len() > FRAME_HEADER_LEN,
                    forall|k: int|
                        0 <= k < frame@.len() ==> frame@[k] == if FRAME_COUNTER_AT <= k < i {
                            0
                        } else {
                            old(frame)@[k]
                        },
                decreases FRAME_LENGTH_AT - i,
            {
                frame.set(i, 0);
                i = i + 1;
            }
            assert(frame@ =~= damaged(fault, old(frame)@));
        },
        FrameFault::TruncateTag => {
            let n: usize = frame.len();
            frame.truncate(n - 16);
        },
        FrameFault::InflateLength => {
            frame.set(FRAME_LENGTH_AT, 0xFF);
        },
    }
}

/// A frame on which the fault would leave no trace: the value that the fault
/// writes stands there already.
pub open spec fn is_immune(fault: FrameFault, frame: Seq<u8>) -> bool {
    match fault {
        FrameFault::BadVersion => frame[FRAME_VERSION_AT as int] == 0xFF,
        FrameFault::ZeroCounter => forall|i: int|
            FRAME_COUNTER_AT <= i < FRAME_LENGTH_AT ==> frame[i] == 0,
        FrameFault::InflateLength => frame[FRAME_LENGTH_AT as int] == 0xFF,
        _ => false,
    }
}

/// A damaged frame is not the frame that was sent.
pub proof fn law_damage_shows(fault: FrameFault, frame: Seq<u8>)
    requires
        frame.len() > FRAME_HEADER_LEN,
        !is_immune(fault, frame),
    ensures
        damaged(fault, frame) != frame,
{
    let after = damaged(fault, frame);
    match fault {
        FrameFault::TamperTag => {
            let b = frame.last();
            assert(b ^ 0x01 != b) by (bit_vector);
            assert(after[frame.len() - 1] != frame[frame.len() - 1]);
        },
        FrameFault::TamperCiphertext => {
            let b = frame[FRAME_HEADER_LEN as int];
            assert(b ^ 0x01 != b) by (bit_vector);
            assert(after[FRAME_HEADER_LEN as int] != b);
        },
        FrameFault::TamperHeaderCounter => {
            let b = frame[FRAME_COUNTER_AT as int];
            assert(b ^ 0x01 != b) by (bit_vector);
            assert(after[FRAME_COUNTER_AT as int] != b);
        },
        FrameFault::BadMagic => {
            let b = frame[0];
            assert(b ^ 0xFF != b) by (bit_vector);
            assert(after[0] != b);
        },
        FrameFault::BadVersion => {
            assert(after[FRAME_VERSION_AT as int] == 0xFF);
        },
        FrameFault::ZeroCounter => {
            let i = choose|i: int| FRAME_COUNTER_AT <= i < FRAME_LENGTH_AT && frame[i] != 0;
            assert(after[i] == 0);
        },
        FrameFault::TruncateTag => {
            assert(after.len() < frame.len());
        },
        FrameFault::InflateLength => {
            assert(after[FRAME_LENGTH_AT as int] == 0xFF);
        },
    }
}

// ---------------------------------------------------------------------------
// The battery
// ---------------------------------------------------------------------------

/// One trial against a pair of endpoints with fresh session keys.
#[derive(Debug, Clone, Copy, PartialEq, Eq, Structural)]
pub enum BatteryCheck {
    /// An untouched frame.
    Baseline,
    /// A damaged frame.
    Fault(FrameFault),
    /// The same frame again.
    ReplayExact,
    /// An old frame after a newer one.
    ReplayAfterAdvance,
    /// A frame of another session.
    CrossSession,
}

/// All trials, in the order of the report.
pub open spec fn battery_checks() -> Seq<BatteryCheck> {
    seq![
        BatteryCheck::Baseline,
        BatteryCheck::Fault(FrameFault::TamperTag),
        BatteryCheck::Fault(FrameFault::TamperCiphertext),
        BatteryCheck::Fault(FrameFault::TamperHeaderCounter),
        BatteryCheck::Fault(FrameFault::BadMagic),
        BatteryCheck::Fault(FrameFault::BadVersion),
        BatteryCheck::Fault(FrameFault::ZeroCounter),
        BatteryCheck::Fault(FrameFault::TruncateTag),
        BatteryCheck::Fault(FrameFault::InflateLength),
        BatteryCheck::ReplayExact,
        BatteryCheck::ReplayAfterAdvance,
        BatteryCheck::CrossSession,
    ]
}

pub fn crypto_attack_battery() -> (checks: Vec<BatteryCheck>)
    ensures
        checks@ == battery_checks(),
{
    let mut checks: Vec<BatteryCheck> = Vec::new();
    checks.push(BatteryCheck::Baseline);
    checks.push(BatteryCheck::Fault(FrameFault::TamperTag));
    checks.push(BatteryCheck::Fault(FrameFault::TamperCiphertext));
    checks.push(BatteryCheck::Fault(FrameFault::TamperHeaderCounter));
    checks.push(BatteryCheck::Fault(FrameFault::BadMagic));
    checks.push(BatteryCheck::Fault(FrameFault::BadVersion));
    checks.push(BatteryCheck::Fault(FrameFault::ZeroCounter));
    checks.push(BatteryCheck::Fault(FrameFault::TruncateTag));
    checks.push(BatteryCheck::Fault(FrameFault::InflateLength));
    checks.push(BatteryCheck::ReplayExact);
    checks.push(BatteryCheck::ReplayAfterAdvance);
    checks.push(BatteryCheck::CrossSession);
    assert(checks@ =~= battery_checks());
    checks
}

/// One step of a trial. Sessions and frames are numbered in the order in which they
/// are made.
#[derive(Debug, Clone, Copy, PartialEq, Eq, Structural)]
pub enum CheckStep {
    /// A handshake gives both ends of a new session fresh keys.
    Handshake,
    /// The sender of the first session protects the plaintext in a new frame.
    Protect,
    /// The first frame is damaged.
    Damage(FrameFault),
    /// The receiver of the first session has to open this frame.
    MustOpen { frame: usize },
    /// What the receiver of this session makes of this frame is judged.
    Judge { session: usize, frame: usize },
}

/// The steps of a trial.
pub open spec fn steps_of(check: BatteryCheck) -> Seq<CheckStep> {
    match check {
        BatteryCheck::Baseline => seq![
            CheckStep::Handshake,
            CheckStep::Protect,
            CheckStep::Judge { session: 0, frame: 0 },
        ],
        BatteryCheck::Fault(fault) => seq![
            CheckStep::Handshake,
            CheckStep::Protect,
            CheckStep::Damage(fault),
            CheckStep::Judge { session: 0, frame: 0 },
        ],
        BatteryCheck::ReplayExact => seq![
            CheckStep::Handshake,
            CheckStep::Protect,
            CheckStep::MustOpen { frame: 0 },
            CheckStep::Judge { session: 0, frame: 0 },
        ],
        BatteryCheck::ReplayAfterAdvance => seq![
            CheckStep::Handshake,
            CheckStep::Protect,
            CheckStep::Protect,
            CheckStep::MustOpen { frame: 0 },
            CheckStep::MustOpen { frame: 1 },
            CheckStep::Judge { session: 0, frame: 0 },
        ],
        BatteryCheck::CrossSession => seq![
            CheckStep::Handshake,
            CheckStep::Handshake,
            CheckStep::Protect,
            CheckStep::Judge { session: 1, frame: 0 },
        ],
    }
}

/// What a trial does, step by step.
pub fn check_steps(check: BatteryCheck) -> (steps: Vec<CheckStep>)
    ensures
        steps@ == steps_of(check),
{
    let mut steps: Vec<CheckStep> = Vec::new();
    steps.push(CheckStep::Handshake);
    match check {
        BatteryCheck::Baseline => {
            steps.push(CheckStep::Protect);
            steps.push(CheckStep::Judge { session: 0, frame: 0 });
        },
        BatteryCheck::Fault(fault) => {
            steps.push(CheckStep::Protect);
            steps.push(CheckStep::Damage(fault));
            steps.push(CheckStep::Judge { session: 0, frame: 0 });
        },
        BatteryCheck::ReplayExact => {
            steps.push(CheckStep::Protect);
            steps.push(CheckStep::MustOpen { frame: 0 });
            steps.push(CheckStep::Judge { session: 0, frame: 0 });
        },
        BatteryCheck::ReplayAfterAdvance => {
            steps.push(CheckStep::Protect);
            steps.push(CheckStep::Protect);
            steps.push(CheckStep::MustOpen { frame: 0 });
            steps.push(CheckStep::MustOpen { frame: 1 });
            steps.push(CheckStep::Judge { session: 0, frame: 0 });
        },
        BatteryCheck::CrossSession => {
            steps.push(CheckStep::Handshake);
            steps.push(CheckStep::Protect);
            steps.push(CheckStep::Judge { session: 1, frame: 0 });
        },
    }
    assert(steps@ =~= steps_of(check));
    steps
}

/// How many sessions the first steps of a trial have made.
pub open spec fn sessions_made(steps: Seq<CheckStep>) -> nat
    decreases steps.len(),
{
    if steps.len() == 0 {
        0
    } else {
        sessions_made(steps.drop_last()) + if steps.last() is Handshake {
            1nat
        } else {
            0nat
        }
    }
}

/// How many frames the first steps of a trial have made.
pub open spec fn frames_made(steps: Seq<CheckStep>) -> nat
    decreases steps.len(),
{
    if steps.len() == 0 {
        0
    } else {
        frames_made(steps.drop_last()) + if steps.last() is Protect {
            1nat
        } else {
            0nat
        }
    }
}

/// A step that only names what the steps before it have made.
pub open spec fn is_runnable(step: CheckStep, before: Seq<CheckStep>) -> bool {
    match step {
        CheckStep::Handshake => true,
        CheckStep::Protect => sessions_made(before) > 0,
        CheckStep::Damage(_) => frames_made(before) > 0,
        CheckStep::MustOpen { frame } => sessions_made(before) > 0 && frame < frames_made(before),
        CheckStep::Judge { session, frame } => session < sessions_made(before) && frame
            < frames_made(before),
    }
}

/// What one more step makes.
proof fn lemma_made(steps: Seq<CheckStep>, i: int)
    requires
        0 <= i,
    ensures
        i < steps.len() ==> sessions_made(steps.take(i + 1)) == sessions_made(steps.take(i)) + if (
        steps[i] is Handshake) {
            1nat
        } else {
            0nat
        },
        i < steps.len() ==> frames_made(steps.take(i + 1)) == frames_made(steps.take(i)) + if (
        steps[i] is Protect) {
            1nat
        } else {
            0nat
        },
{
    if i < steps.len() {
        assert(steps.take(i + 1).drop_last() =~= steps.take(i));
    }
}

/// Every trial ends with its one judgement, and no step names a session or a frame
/// that is not there yet.
pub proof fn law_trials_can_be_run(check: BatteryCheck)
    ensures
        steps_of(check).last() is Judge,
        forall|i: int|
            0 <= i < steps_of(check).len() - 1 ==> !(#[trigger] steps_of(check)[i] is Judge),
        forall|i: int|
            0 <= i < steps_of(check).len() ==> is_runnable(
                #[trigger] steps_of(check)[i],
                steps_of(check).take(i),
            ),
{
    let steps = steps_of(check);
    assert(steps.take(0) =~= Seq::empty());
    lemma_made(steps, 0);
    lemma_made(steps, 1);
    lemma_made(steps, 2);
    lemma_made(steps, 3);
    lemma_made(steps, 4);
}

/// The name of a trial.
pub open spec fn check_name(check: BatteryCheck) -> Seq<char> {
    match check {
        BatteryCheck::Baseline => "baseline"@,
        BatteryCheck::Fault(FrameFault::TamperTag) => "tamper-tag"@,
        BatteryCheck::Fault(FrameFault::TamperCiphertext) => "tamper-ciphertext"@,
        BatteryCheck::Fault(FrameFault::TamperHeaderCounter) => "tamper-header-counter"@,
        BatteryCheck::Fault(FrameFault::BadMagic) => "bad-magic"@,
        BatteryCheck::Fault(FrameFault::BadVersion) => "bad-version"@,
        BatteryCheck::Fault(FrameFault::ZeroCounter) => "zero-counter"@,
        BatteryCheck::Fault(FrameFault::TruncateTag) => "truncate-tag"@,
        BatteryCheck::Fault(FrameFault::InflateLength) => "inflate-length"@,
        BatteryCheck::ReplayExact => "replay-exact"@,
        BatteryCheck::ReplayAfterAdvance => "replay-after-advance"@,
        BatteryCheck::CrossSession => "cross-session"@,
    }
}

fn name_of(check: BatteryCheck) -> (s: &'static str)
    ensures
        s@ == check_name(check),
{
    match check {
        BatteryCheck::Baseline => "baseline",
        BatteryCheck::Fault(fault) => match fault {
            FrameFault::TamperTag => "tamper-tag",
            FrameFault::TamperCiphertext => "tamper-ciphertext",
            FrameFault::TamperHeaderCounter => "tamper-header-counter",
            FrameFault::BadMagic => "bad-magic",
            FrameFault::BadVersion => "bad-version",
            FrameFault::ZeroCounter => "zero-counter",
            FrameFault::TruncateTag => "truncate-tag",
            FrameFault::InflateLength => "inflate-length",
        },
        BatteryCheck::ReplayExact => "replay-exact",
        BatteryCheck::ReplayAfterAdvance => "replay-after-advance",
        BatteryCheck::CrossSession => "cross-session",
    }
}

/// The defence that a trial is about.
pub open spec fn check_layer(check: BatteryCheck) -> Seq<char> {
    match check {
        BatteryCheck::Baseline => "pqc-frame"@,
        BatteryCheck::Fault(_) => "pqc-frame"@,
        BatteryCheck::ReplayExact => "replay-window"@,
        BatteryCheck::ReplayAfterAdvance => "replay-window"@,
        BatteryCheck::CrossSession => "key-isolation"@,
    }
}

fn layer_of(check: BatteryCheck) -> (s: &'static str)
    ensures
        s@ == check_layer(check),
{
    match check {
        BatteryCheck::Baseline => "pqc-frame",
        BatteryCheck::Fault(_) => "pqc-frame",
        BatteryCheck::ReplayExact => "replay-window",
        BatteryCheck::ReplayAfterAdvance => "replay-window",
        BatteryCheck::CrossSession => "key-isolation",
    }
}

/// What is observed when a frame is taken that should not be.
pub open spec fn breach_text(check: BatteryCheck) -> Seq<char> {
    match check {
        BatteryCheck::ReplayExact => "delivered-twice(!)"@,
        BatteryCheck::ReplayAfterAdvance => "delivered-twice(!)"@,
        BatteryCheck::CrossSession => "delivered-cross-session(!)"@,
        _ => "delivered(!)"@,
    }
}

fn breach_of(check: BatteryCheck) -> (s: &'static str)
    ensures
        s@ == breach_text(check),
{
    match check {
        BatteryCheck::ReplayExact => "delivered-twice(!)",
        BatteryCheck::ReplayAfterAdvance => "delivered-twice(!)",
        BatteryCheck::CrossSession => "delivered-cross-session(!)",
        BatteryCheck::Baseline => "delivered(!)",
        BatteryCheck::Fault(_) => "delivered(!)",
    }
}

/// The line of a trial, from what the receiver made of the frame.
pub open spec fn check_row(
    check: BatteryCheck,
    plaintext: Seq<u8>,
    opened: Result<Seq<u8>, QlinkErrorView>,
) -> AttackRowView {
    AttackRowView {
        name: check_name(check),
        layer: check_layer(check),
        expected: if check is Baseline {
            "deliver"@
        } else {
            "reject"@
        },
        observed: match opened {
            Err(e) => "reject:"@ + error_text(e),
            Ok(bytes) => if check is Baseline {
                if bytes == plaintext {
                    "delivered-intact"@
                } else {
                    "delivered-CORRUPT(!)"@
                }
            } else {
                breach_text(check)
            },
        },
        pass: match opened {
            Err(_) => !(check is Baseline),
            Ok(bytes) => check is Baseline && bytes == plaintext,
        },
    }
}

/// Judges a trial: the untouched frame must come through intact, every other one
/// must be refused.
pub fn battery_row(check: BatteryCheck, plaintext: &[u8], opened: &Result<Vec<u8>>) -> (row:
    AttackRow)
    ensures
        row@ == check_row(
            check,
            plaintext@,
            match *opened {
                Ok(bytes) => Ok(bytes@),
                Err(e) => Err(e@),
            },
        ),
{
    let is_baseline: bool = match check {
        BatteryCheck::Baseline => true,
        _ => false,
    };
    let (observed, pass) = match opened {
        Err(e) => {
            let reason = e.to_string();
            (join2("reject:", reason.as_str()), !is_baseline)
        },
        Ok(bytes) => if !is_baseline {
            (breach_of(check).to_owned(), false)
        } else if same_bytes(bytes.as_slice(), plaintext) {
            ("delivered-intact".to_owned(), true)
        } else {
            ("delivered-CORRUPT(!)".to_owned(), false)
        },
    };
    let expected = if is_baseline {
        "deliver".to_owned()
    } else {
        "reject".to_owned()
    };
    AttackRow {
        name: name_of(check).to_owned(),
        layer: layer_of(check).to_owned(),
        expected,
        observed,
        pass,
    }
}

// ---------------------------------------------------------------------------
// The misbehaving relay
// ---------------------------------------------------------------------------

/// What a relay does to the frames that it passes on.
#[derive(Debug, Clone, Copy, PartialEq, Eq, Structural)]
pub enum RelayAttack {
    Passthrough,
    TamperPayload,
    Duplicate,
}

/// The longest payload that counts as an application frame; the frames of a
/// handshake are longer.
pub const APP_FRAME_LIMIT: usize = 256;

/// The bytes that a base64 text stands for.
pub open spec fn encoded_bytes(text: Seq<char>) -> Option<Seq<u8>> {
    if exists|bytes: Seq<u8>| #[trigger] base64_standard(bytes) == text {
        Some(choose|bytes: Seq<u8>| #[trigger] base64_standard(bytes) == text)
    } else {
        None
    }
}

/// Bytes with the lowest bit of the last one turned over.
pub open spec fn last_bit_turned(bytes: Seq<u8>) -> Seq<u8> {
    if bytes.len() == 0 {
        bytes
    } else {
        bytes.update(bytes.len() - 1, bytes.last() ^ 0x01)
    }
}

/// The payloads that a relay passes on for one that it was given.
pub open spec fn relayed(attack: RelayAttack, payload: Seq<char>) -> Seq<Seq<char>> {
    match encoded_bytes(payload) {
        Some(bytes) if bytes.len() <= APP_FRAME_LIMIT => match attack {
            RelayAttack::Passthrough => seq![payload],
            RelayAttack::TamperPayload => seq![base64_standard(last_bit_turned(bytes))],
            RelayAttack::Duplicate => seq![payload, payload],
        },
        _ => seq![payload],
    }
}

proof fn lemma_sextet_range(bytes: Seq<u8>, i: int)
    requires
        0 <= i,
    ensures
        0 <= sextet(bytes, i) < 64,
{
    let hi = byte_or_zero(bytes, i * 6 / 8);
    let lo = byte_or_zero(bytes, i * 6 / 8 + 1);
    assert(0 <= hi < 256 && 0 <= lo < 256);
    assert(0 <= hi * 256 + lo < 65536);
}

proof fn lemma_standard_char_tells(a: int, b: int)
    requires
        0 <= a < 64,
        0 <= b < 64,
    ensures
        standard_char(a) != '=',
        standard_char(a) == standard_char(b) ==> a == b,
{
}

proof fn lemma_pair_groups(x: int, y: int)
    requires
        0 <= x < 256,
        0 <= y < 256,
    ensures
        (x * 256 + y) / 1024 == x / 4,
        ((x * 256 + y) / 16) % 64 == (x % 4) * 16 + y / 16,
        ((x * 256 + y) / 64) % 64 == (x % 16) * 4 + y / 64,
        ((x * 256 + y) / 256) % 64 == x % 64,
{
    let x = x as u8;
    let y = y as u8;
    assert((x * 256 + y) / 1024 == x / 4 && ((x * 256 + y) / 16) % 64 == (x % 4) * 16 + y / 16 && ((
    x * 256 + y) / 64) % 64 == (x % 16) * 4 + y / 64 && ((x * 256 + y) / 256) % 64 == x % 64)
        by (bit_vector);
}

/// The four groups of a block of three bytes.
proof fn lemma_block_groups(bytes: Seq<u8>, q: int)
    requires
        0 <= q,
    ensures
        ({
            let x = byte_or_zero(bytes, 3 * q);
            let y = byte_or_zero(bytes, 3 * q + 1);
            let z = byte_or_zero(bytes, 3 * q + 2);
            &&& sextet(bytes, 4 * q) == x / 4
            &&& sextet(bytes, 4 * q + 1) == (x % 4) * 16 + y / 16
            &&& sextet(bytes, 4 * q + 2) == (y % 16) * 4 + z / 64
            &&& sextet(bytes, 4 * q + 3) == z % 64
        }),
{
    let i = 4 * q;
    assert(i * 6 / 8 == 3 * q && i * 6 % 8 == 0);
    assert((i + 1) * 6 / 8 == 3 * q && (i + 1) * 6 % 8 == 6);
    assert((i + 2) * 6 / 8 == 3 * q + 1 && (i + 2) * 6 % 8 == 4);
    assert((i + 3) * 6 / 8 == 3 * q + 2 && (i + 3) * 6 % 8 == 2);
    lemma_pair_groups(byte_or_zero(bytes, 3 * q), byte_or_zero(bytes, 3 * q + 1));
    lemma_pair_groups(byte_or_zero(bytes, 3 * q + 1), byte_or_zero(bytes, 3 * q + 2));
    lemma_pair_groups(byte_or_zero(bytes, 3 * q + 2), byte_or_zero(bytes, 3 * q + 3));
}

proof fn lemma_first_tells(x: int, y: int, u: int, v: int)
    requires
        0 <= x < 256,
        0 <= y < 256,
        0 <= u < 256,
        0 <= v < 256,
        x / 4 == u / 4,
        (x % 4) * 16 + y / 16 == (u % 4) * 16 + v / 16,
    ensures
        x == u,
{
}

proof fn lemma_second_tells(x: int, y: int, z: int, u: int, v: int, w: int)
    requires
        0 <= y < 256,
        0 <= z < 256,
        0 <= v < 256,
        0 <= w < 256,
        (x % 4) * 16 + y / 16 == (u % 4) * 16 + v / 16,
        (y % 16) * 4 + z / 64 == (v % 16) * 4 + w / 64,
    ensures
        y == v,
{
}

proof fn lemma_third_tells(y: int, z: int, v: int, w: int)
    requires
        0 <= z < 256,
        0 <= w < 256,
        (y % 16) * 4 + z / 64 == (v % 16) * 4 + w / 64,
        z % 64 == w % 64,
    ensures
        z == w,
{
}

/// Six-bit groups tell the bytes that they were cut from.
proof fn lemma_sextets_tell(a: Seq<u8>, b: Seq<u8>, k: int)
    requires
        0 <= k < a.len(),
        a.len() == b.len(),
        forall|i: int| 0 <= i && i * 6 < a.len() * 8 ==> #[trigger] sextet(a, i) == sextet(b, i),
    ensures
        a[k] == b[k],
{
    let q = k / 3;
    lemma_block_groups(a, q);
    lemma_block_groups(b, q);
    let (x, y, z) = (
        byte_or_zero(a, 3 * q),
        byte_or_zero(a, 3 * q + 1),
        byte_or_zero(a, 3 * q + 2),
    );
    let (u, v, w) = (
        byte_or_zero(b, 3 * q),
        byte_or_zero(b, 3 * q + 1),
        byte_or_zero(b, 3 * q + 2),
    );
    if k == 3 * q {
        assert(sextet(a, 4 * q) == sextet(b, 4 * q));
        assert(sextet(a, 4 * q + 1) == sextet(b, 4 * q + 1));
        lemma_first_tells(x, y, u, v);
    } else if k == 3 * q + 1 {
        assert(sextet(a, 4 * q + 1) == sextet(b, 4 * q + 1));
        assert(sextet(a, 4 * q + 2) == sextet(b, 4 * q + 2));
        lemma_second_tells(x, y, z, u, v, w);
    } else {
        assert(k == 3 * q + 2);
        assert(sextet(a, 4 * q + 2) == sextet(b, 4 * q + 2));
        assert(sextet(a, 4 * q + 3) == sextet(b, 4 * q + 3));
        lemma_third_tells(y, z, v, w);
    }
}

proof fn lemma_base64_tells_length(a: Seq<u8>, b: Seq<u8>)
    requires
        base64_standard(a) == base64_standard(b),
    ensures
        a.len() >= b.len(),
{
    let text = base64_standard(a);
    assert(base64_standard(a).len() == base64_standard(b).len());
    if a.len() < b.len() {
        let q = a.len() as int / 3;
        let i = if a.len() == 3 * q + 1 {
            4 * q + 2
        } else {
            4 * q + 3
        };
        assert(a.len() > 3 * q);
        assert(text[i] == '=');
        lemma_sextet_range(b, i);
        lemma_standard_char_tells(sextet(b, i), 0);
        assert(base64_standard(b)[i] == standard_char(sextet(b, i)));
    }
}

/// No two byte strings have the same base64 text.
pub proof fn law_base64_tells_bytes(a: Seq<u8>, b: Seq<u8>)
    requires
        base64_standard(a) == base64_standard(b),
    ensures
        a == b,
{
    lemma_base64_tells_length(a, b);
    lemma_base64_tells_length(b, a);
    assert forall|i: int| 0 <= i && i * 6 < a.len() * 8 implies #[trigger] sextet(a, i) == sextet(
        b,
        i,
    ) by {
        assert(i < (a.len() + 2) / 3 * 4);
        lemma_sextet_range(a, i);
        lemma_sextet_range(b, i);
        lemma_standard_char_tells(sextet(a, i), sextet(b, i));
        assert(base64_standard(a)[i] == standard_char(sextet(a, i)));
        assert(base64_standard(b)[i] == standard_char(sextet(b, i)));
    }
    assert forall|k: int| 0 <= k < a.len() implies a[k] == b[k] by {
        lemma_sextets_tell(a, b, k);
    }
    assert(a =~= b);
}

/// What a relay passes on for a payload: short frames as its behaviour has it,
/// longer ones, and what is no base64, untouched.
pub fn relayed_payloads(attack: RelayAttack, payload_base64: &str) -> (payloads: Vec<String>)
    ensures
        texts(payloads@) == relayed(attack, payload_base64@),
{
    let decoded = base64_decode(payload_base64);
    let mut payloads: Vec<String> = Vec::new();
    match decoded {
        Some(raw) => {
            proof {
                let found = encoded_bytes(payload_base64@);
                assert(base64_standard(raw@) == payload_base64@);
                law_base64_tells_bytes(raw@, found->0);
            }
            if raw.len() <= APP_FRAME_LIMIT {
                match attack {
                    RelayAttack::Passthrough => {
                        payloads.push(payload_base64.to_owned());
                    },
                    RelayAttack::TamperPayload => {
                        let mut raw = raw;
                        let ghost before = raw@;
                        let n: usize = raw.len();
                        if n > 0 {
                            let byte: u8 = raw[n - 1];
                            raw.set(n - 1, byte ^ 0x01);
                        }
                        assert(raw@ =~= last_bit_turned(before));
                        payloads.push(base64_encode(raw.as_slice()));
                    },
                    RelayAttack::Duplicate => {
                        payloads.push(payload_base64.to_owned());
                        payloads.push(payload_base64.to_owned());
                    },
                }
            } else {
                payloads.push(payload_base64.to_owned());
            }
        },
        None => {
            payloads.push(payload_base64.to_owned());
        },
    }
    assert(texts(payloads@) =~= relayed(attack, payload_base64@));
    payloads
}

/// Whatever a relay does to application frames, it passes every longer frame on
/// untouched, so that the handshake completes.
pub proof fn law_relay_spares_handshakes(attack: RelayAttack, bytes: Seq<u8>)
    requires
        bytes.len() > APP_FRAME_LIMIT,
    ensures
        relayed(attack, base64_standard(bytes)) == seq![base64_standard(bytes)],
{
    let text = base64_standard(bytes);
    assert(base64_standard(bytes) == text);
    let found = encoded_bytes(text);
    law_base64_tells_bytes(bytes, found->0);
}

/// A relay that tampers passes no application frame on as it was, but for an
/// empty one.
pub proof fn law_tampering_shows(bytes: Seq<u8>)
    requires
        0 < bytes.len() <= APP_FRAME_LIMIT,
    ensures
        relayed(RelayAttack::TamperPayload, base64_standard(bytes)) == seq![
            base64_standard(last_bit_turned(bytes)),
        ],
        base64_standard(last_bit_turned(bytes)) != base64_standard(bytes),
{
    let text = base64_standard(bytes);
    assert(base64_standard(bytes) == text);
    let found = encoded_bytes(text);
    law_base64_tells_bytes(bytes, found->0);
    if base64_standard(last_bit_turned(bytes)) == text {
        law_base64_tells_bytes(last_bit_turned(bytes), bytes);
        let b = bytes.last();
        assert(b ^ 0x01 != b) by (bit_vector);
        assert(last_bit_turned(bytes)[bytes.len() - 1] == b ^ 0x01);
    }
}

/// A message to the relay.
#[derive(Debug, Clone)]
pub enum RelayRequest {
    Register { peer_id: String },
    Datagram { source: String, destination: String, payload_base64: String },
    /// A line that is neither.
    Other,
}

/// What the relay does about a message.
#[derive(Debug, Clone)]
pub enum RelayAction {
    /// Confirms the name and keeps the connection under it.
    Confirm { peer_id: String },
    /// Passes payloads on to the connection of the destination, where there is
    /// one.
    Forward { source: String, destination: String, payloads: Vec<String> },
    Ignore,
}

/// A connection to the relay: the name that it registered, if it has.
#[derive(Debug, Clone)]
pub struct RelayConnection {
    pub registered: Option<String>,
}

impl RelayConnection {
    pub fn new() -> (c: RelayConnection)
        ensures
            c.registered is None,
    {
        RelayConnection { registered: None }
    }

    /// Acts on a message. The first registration counts, later ones are passed
    /// over.
    pub fn handle(&mut self, attack: RelayAttack, request: RelayRequest) -> (action: RelayAction)
        ensures
            match request {
                RelayRequest::Register { peer_id } => match old(self).registered {
                    None => (action matches RelayAction::Confirm { peer_id: confirmed }
                        && confirmed@ == peer_id@) && (final(self).registered matches Some(name)
                        && name@ == peer_id@),
                    Some(_) => action is Ignore && *final(self) == *old(self),
                },
                RelayRequest::Datagram { source, destination, payload_base64 } => (
                action matches RelayAction::Forward { source: s, destination: d, payloads } && s
                    == source && d == destination && texts(payloads@) == relayed(
                    attack,
                    payload_base64@,
                )) && *final(self) == *old(self),
                RelayRequest::Other => action is Ignore && *final(self) == *old(self),
            },
    {
        match request {
            RelayRequest::Register { peer_id } => {
                let fresh: bool = self.registered.is_none();
                if fresh {
                    self.registered = Some(peer_id.clone());
                    RelayAction::Confirm { peer_id }
                } else {
                    RelayAction::Ignore
                }
            },
            RelayRequest::Datagram { source, destination, payload_base64 } => {
                let payloads = relayed_payloads(attack, payload_base64.as_str());
                RelayAction::Forward { source, destination, payloads }
            },
            RelayRequest::Other => RelayAction::Ignore,
        }
    }
}

// ---------------------------------------------------------------------------
// Trials through the relay
// ---------------------------------------------------------------------------

/// A trial with a live session through the misbehaving relay.
#[derive(Debug, Clone, Copy, PartialEq, Eq, Structural)]
pub struct LiveRelayTest {
    pub attack: RelayAttack,
    pub send_count: u64,
    pub expected_delivered: u64,
}

/// The name of a live trial.
pub open spec fn live_name(attack: RelayAttack) -> Seq<char> {
    match attack {
        RelayAttack::Passthrough => "relay-baseline"@,
        RelayAttack::TamperPayload => "relay-tamper"@,
        RelayAttack::Duplicate => "relay-replay"@,
    }
}

/// How many frames a live trial sends, and how many must come through.
pub open spec fn live_test(attack: RelayAttack) -> LiveRelayTest {
    match attack {
        RelayAttack::Passthrough => LiveRelayTest { attack, send_count: 5, expected_delivered: 5 },
        RelayAttack::TamperPayload => LiveRelayTest {
            attack,
            send_count: 3,
            expected_delivered: 0,
        },
        RelayAttack::Duplicate => LiveRelayTest { attack, send_count: 1, expected_delivered: 1 },
    }
}

impl LiveRelayTest {
    pub fn new(attack: RelayAttack) -> (t: LiveRelayTest)
        ensures
            t == live_test(attack),
    {
        match attack {
            RelayAttack::Passthrough => LiveRelayTest {
                attack,
                send_count: 5,
                expected_delivered: 5,
            },
            RelayAttack::TamperPayload => LiveRelayTest {
                attack,
                send_count: 3,
                expected_delivered: 0,
            },
            RelayAttack::Duplicate => LiveRelayTest {
                attack,
                send_count: 1,
                expected_delivered: 1,
            },
        }
    }
}

/// What a live trial came to.
#[derive(Debug, Clone)]
pub enum LiveRelayOutcome {
    Refused(QlinkError),
    Connected { path_kind: PathKind, delivered: u64 },
}

/// A path in the report of a live trial.
pub open spec fn short_path_name(path_kind: PathKind) -> Seq<char> {
    match path_kind {
        PathKind::Relay => "relay"@,
        PathKind::Direct => "direct"@,
    }
}

/// The line of a live trial. A link that was refused delivered nothing.
pub open spec fn live_row(test: LiveRelayTest, outcome: LiveRelayOutcome) -> AttackRowView {
    AttackRowView {
        name: live_name(test.attack),
        layer: "live-relay-mitm"@,
        expected: "delivered="@ + decimal(test.expected_delivered as nat),
        observed: match outcome {
            LiveRelayOutcome::Refused(e) => "connect-refused:"@ + error_text(e@),
            LiveRelayOutcome::Connected { path_kind, delivered } => "path="@ + short_path_name(
                path_kind,
            ) + " sent="@ + decimal(test.send_count as nat) + " delivered="@ + decimal(
                delivered as nat,
            ),
        },
        pass: match outcome {
            LiveRelayOutcome::Refused(_) => test.expected_delivered == 0,
            LiveRelayOutcome::Connected { path_kind, delivered } => delivered
                == test.expected_delivered && path_kind == PathKind::Relay,
        },
    }
}

/// Judges a live trial.
pub fn live_relay_row(test: &LiveRelayTest, outcome: &LiveRelayOutcome) -> (row: AttackRow)
    ensures
        row@ == live_row(*test, *outcome),
{
    let name = match test.attack {
        RelayAttack::Passthrough => "relay-baseline",
        RelayAttack::TamperPayload => "relay-tamper",
        RelayAttack::Duplicate => "relay-replay",
    };
    let mut expected = "delivered=".to_owned();
    push_decimal(&mut expected, test.expected_delivered);
    let (observed, pass) = match outcome {
        LiveRelayOutcome::Refused(e) => {
            let reason = e.to_string();
            (join2("connect-refused:", reason.as_str()), test.expected_delivered == 0)
        },
        LiveRelayOutcome::Connected { path_kind, delivered } => {
            let mut text = "path=".to_owned();
            let by_relay: bool = match path_kind {
                PathKind::Relay => {
                    text.append("relay");
                    true
                },
                PathKind::Direct => {
                    text.append("direct");
                    false
                },
            };
            text.append(" sent=");
            push_decimal(&mut text, test.send_count);
            text.append(" delivered=");
            push_decimal(&mut text, *delivered);
            (text, *delivered == test.expected_delivered && by_relay)
        },
    };
    AttackRow {
        name: name.to_owned(),
        layer: "live-relay-mitm".to_owned(),
        expected,
        observed,
        pass,
    }
}

/// How a count of delivered frames goes on.
#[derive(Debug, Clone, Copy, PartialEq, Eq, Structural)]
pub enum WatchStep {
    /// Asks again at once.
    Poll,
    /// Asks again after a pause.
    Pause,
    /// The count is complete.
    Finish,
}

/// A count of the frames that a responder delivers until a deadline.
#[derive(Debug, Clone, Copy, PartialEq, Eq, Structural)]
pub struct DeliveryWatch {
    pub delivered: u64,
    pub deadline: Instant,
}

impl DeliveryWatch {
    pub fn new(deadline: Instant) -> (w: DeliveryWatch)
        ensures
            w == (DeliveryWatch { delivered: 0, deadline }),
    {
        DeliveryWatch { delivered: 0, deadline }
    }

    /// Takes note of whether a frame was there. Frames that are there are counted
    /// even past the deadline.
    pub fn observe(&mut self, frame_received: bool, now: Instant) -> (step: WatchStep)
        requires
            old(self).delivered < u64::MAX,
        ensures
            final(self).deadline == old(self).deadline,
            final(self).delivered == old(self).delivered + (if frame_received {
                1int
            } else {
                0
            }),
            step == if frame_received {
                WatchStep::Poll
            } else if now.nanos >= old(self).deadline.nanos {
                WatchStep::Finish
            } else {
                WatchStep::Pause
            },
    {
        if frame_received {
            self.delivered = self.delivered + 1;
            WatchStep::Poll
        } else if now.nanos >= self.deadline.nanos {
            WatchStep::Finish
        } else {
            WatchStep::Pause
        }
    }
}

// ---------------------------------------------------------------------------
// The whole self-test
// ---------------------------------------------------------------------------

/// Which parts of the self-test are asked for.
#[derive(Debug, Clone, Copy, PartialEq, Eq, Structural)]
pub struct ChannelAttackPlan {
    pub crypto: bool,
    pub relay_baseline: bool,
    pub relay_tamper: bool,
    pub relay_replay: bool,
}

/// The parts that a scenario names.
pub open spec fn plan_named(scenario: Seq<char>) -> ChannelAttackPlan {
    let all = scenario == "all"@;
    ChannelAttackPlan {
        crypto: all || scenario == "crypto"@,
        relay_baseline: all || scenario == "relay-baseline"@,
        relay_tamper: all || scenario == "relay-tamper"@,
        relay_replay: all || scenario == "relay-replay"@,
    }
}

/// A plan with nothing in it.
pub open spec fn is_empty_plan(plan: ChannelAttackPlan) -> bool {
    !plan.crypto && !plan.relay_baseline && !plan.relay_tamper && !plan.relay_replay
}

pub fn plan_channel_attack(scenario: &str) -> (r: Result<ChannelAttackPlan>)
    ensures
        is_empty_plan(plan_named(scenario@)) ==> (r matches Err(e) && e@
            == QlinkErrorView::Protocol(
            "unknown channel-attack scenario: "@ + scenario@
                + " (expected all|crypto|relay-baseline|relay-tamper|relay-replay)"@,
        )),
        !is_empty_plan(plan_named(scenario@)) ==> r == Ok::<ChannelAttackPlan, QlinkError>(
            plan_named(scenario@),
        ),
{
    let all: bool = same_text(scenario, "all");
    let plan = ChannelAttackPlan {
        crypto: all || same_text(scenario, "crypto"),
        relay_baseline: all || same_text(scenario, "relay-baseline"),
        relay_tamper: all || same_text(scenario, "relay-tamper"),
        relay_replay: all || same_text(scenario, "relay-replay"),
    };
    if !(plan.crypto || plan.relay_baseline || plan.relay_tamper || plan.relay_replay) {
        return Err(
            QlinkError::Protocol(
                join3(
                    "unknown channel-attack scenario: ",
                    scenario,
                    " (expected all|crypto|relay-baseline|relay-tamper|relay-replay)",
                ),
            ),
        );
    }
    Ok(plan)
}

/// The line that stands for the live trials where they cannot be run.
pub fn skipped_relay_row(plan: &ChannelAttackPlan) -> (r: Option<AttackRow>)
    ensures
        r is Some <==> plan.relay_baseline || plan.relay_tamper || plan.relay_replay,
        r matches Some(row) ==> row@ == (AttackRowView {
            name: "live-relay"@,
            layer: "live-relay-mitm"@,
            expected: "n/a"@,
            observed: "SKIPPED (rebuild with --features dev-quic-carrier)"@,
            pass: true,
        }),
{
    if plan.relay_baseline || plan.relay_tamper || plan.relay_replay {
        Some(
            AttackRow {
                name: "live-relay".to_owned(),
                layer: "live-relay-mitm".to_owned(),
                expected: "n/a".to_owned(),
                observed: "SKIPPED (rebuild with --features dev-quic-carrier)".to_owned(),
                pass: true,
            },
        )
    } else {
        None
    }
}

/// A verdict in words.
pub open spec fn verdict(pass: bool) -> Seq<char> {
    if pass {
        "PASS"@
    } else {
        "FAIL"@
    }
}

/// The line of a row.
pub open spec fn row_line(row: AttackRowView) -> Seq<char> {
    "attack="@ + row.name + " layer="@ + row.layer + " expected="@ + row.expected + " observed="@
        + row.observed + " verdict="@ + verdict(row.pass) + "\n"@
}

/// The lines of rows.
pub open spec fn row_lines(rows: Seq<AttackRowView>) -> Seq<char>
    decreases rows.len(),
{
    if rows.len() == 0 {
        Seq::empty()
    } else {
        row_lines(rows.drop_last()) + row_line(rows.last())
    }
}

/// How many rows passed.
pub open spec fn passed_count(rows: Seq<AttackRowView>) -> nat
    decreases rows.len(),
{
    if rows.len() == 0 {
        0
    } else if rows.last().pass {
        passed_count(rows.drop_last()) + 1
    } else {
        passed_count(rows.drop_last())
    }
}

/// The report of a self-test.
pub open spec fn report_text(scenario: Seq<char>, rows: Seq<AttackRowView>) -> Seq<char> {
    "scenario="@ + scenario + "\n"@ + row_lines(rows) + "channel_attack_passed="@ + decimal(
        passed_count(rows),
    ) + "\nchannel_attack_total="@ + decimal(rows.len()) + "\nchannel_attack_result="@ + verdict(
        passed_count(rows) == rows.len(),
    ) + "\n"@
}

fn push_row(s: &mut String, row: &AttackRow)
    ensures
        final(s)@ == old(s)@ + row_line(row@),
{
    s.append("attack=");
    s.append(row.name.as_str());
    s.append(" layer=");
    s.append(row.layer.as_str());
    s.append(" expected=");
    s.append(row.expected.as_str());
    s.append(" observed=");
    s.append(row.observed.as_str());
    s.append(" verdict=");
    if row.pass {
        s.append("PASS");
    } else {
        s.append("FAIL");
    }
    s.append("\n");
    assert(s@ =~= old(s)@ + row_line(row@));
}

/// Reports a self-test and concludes it: it succeeds when every row passed.
pub fn conclude_channel_attack(scenario: &str, rows: &Vec<AttackRow>) -> (r: (String, Result<()>))
    ensures
        r.0@ == report_text(scenario@, row_views(rows@)),
        match r.1 {
            Ok(()) => passed_count(row_views(rows@)) == rows@.len(),
            Err(e) => passed_count(row_views(rows@)) != rows@.len() && e@
                == QlinkErrorView::Protocol("one or more channel attacks were NOT rejected"@),
        },
{
    let ghost views = row_views(rows@);
    let mut s = "scenario=".to_owned();
    s.append(scenario);
    s.append("\n");
    let ghost head = s@;
    let mut passed: usize = 0;
    let mut i: usize = 0;
    assert(s@ =~= head + row_lines(views.subrange(0, 0)));
    while i < rows.len()
        invariant
            i <= rows@.len(),
            views == row_views(rows@),
            passed <= i,
            passed == passed_count(views.subrange(0, i as int)),
            s@ == head + row_lines(views.subrange(0, i as int)),
        decreases rows@.len() - i,
    {
        push_row(&mut s, &rows[i]);
        assert(views.subrange(0, i + 1).drop_last() =~= views.subrange(0, i as int));
        assert(views.subrange(0, i + 1).last() == rows@[i as int]@);
        if rows[i].pass {
            passed = passed + 1;
        }
        i = i + 1;
        assert(s@ =~= head + row_lines(views.subrange(0, i as int)));
    }
    assert(views.subrange(0, i as int) =~= views);
    s.append("channel_attack_passed=");
    push_decimal(&mut s, passed as u64);
    s.append("\nchannel_attack_total=");
    push_decimal(&mut s, rows.len() as u64);
    s.append("\nchannel_attack_result=");
    let result: Result<()> = if passed == rows.len() {
        s.append("PASS");
        Ok(())
    } else {
        s.append("FAIL");
        Err(protocol("one or more channel attacks were NOT rejected"))
    };
    s.append("\n");
    assert(s@ =~= report_text(scenario@, views));
    (s, result)
}

proof fn lemma_passed_bound(rows: Seq<AttackRowView>)
    ensures
        passed_count(rows) <= rows.len(),
    decreases rows.len(),
{
    if rows.len() > 0 {
        lemma_passed_bound(rows.drop_last());
    }
}

/// The self-test succeeds exactly when every row passed: one breach fails it.
pub proof fn law_one_breach_fails_the_test(rows: Seq<AttackRowView>)
    ensures
        passed_count(rows) == rows.len() <==> (forall|i: int|
            0 <= i < rows.len() ==> (#[trigger] rows[i]).pass),
    decreases rows.len(),
{
    if rows.len() > 0 {
        let front = rows.drop_last();
        law_one_breach_fails_the_test(front);
        lemma_passed_bound(front);
        if passed_count(rows) == rows.len() {
            assert forall|i: int| 0 <= i < rows.len() implies (#[trigger] rows[i]).pass by {
                if i < front.len() {
                    assert(front[i] == rows[i]);
                }
            }
        }
        if forall|i: int| 0 <= i < rows.len() ==> (#[trigger] rows[i]).pass {
            assert forall|i: int| 0 <= i < front.len() implies (#[trigger] front[i]).pass by {
                assert(front[i] == rows[i]);
            }
            assert(rows.last() == rows[rows.len() - 1]);
        }
    }
}

/// A trial passes exactly when an untouched frame came through intact, or any
/// other frame was refused.
pub proof fn law_verdict_of_a_trial(
    check: BatteryCheck,
    plaintext: Seq<u8>,
    opened: Result<Seq<u8>, QlinkErrorView>,
)
    ensures
        check_row(check, plaintext, opened).pass <==> if check == BatteryCheck::Baseline {
            opened == Ok::<Seq<u8>, QlinkErrorView>(plaintext)
        } else {
            opened is Err
        },
{
}

} // verus!
