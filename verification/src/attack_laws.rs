//! What holds of the channel's self-test: what each attack does to a frame, and
//! what counts as withstanding it.

use crate::channel_attack::{
    AttackRow, AttackRowView, BatteryCheck, ChannelAttackPlan, CheckStep, DeliveryWatch, FrameFault,
    LiveRelayOutcome, LiveRelayTest, RelayAction, RelayAttack, RelayConnection, RelayRequest,
    WatchStep, battery_row, check_row, check_steps, conclude_channel_attack, crypto_attack_battery,
    damage, encoded_bytes, law_base64_tells_bytes, law_one_breach_fails_the_test, live_relay_row,
    passed_count, plan_channel_attack, relayed, row_lines, row_views, skipped_relay_row,
};
use crate::dytallix_identity::texts;
use crate::error::{QlinkErrorView, Result, error_text};
use crate::outside::base64_standard;
use crate::time::Instant;
use vstd::prelude::*;
use vstd::string::*;

verus! {

/// What each fault does to a frame: one bit of the tag, the ciphertext or the
/// counter is turned, the magic is inverted in its first byte, the version or the
/// first byte of the length is set to its highest value, the counter is emptied,
/// or the tag is cut off. Nothing else of the frame changes.
pub proof fn law_faults_change_one_thing(fault: FrameFault, frame: &mut Vec<u8>)
    requires
        call_ensures(damage, (fault, frame), ()),
        old(frame)@.len() > 19,
    ensures
        ({
            let was = old(frame)@;
            let is = final(frame)@;
            let n = was.len() as int;
            &&& fault is TamperTag ==> is == was.update(n - 1, was[n - 1] ^ 1)
            &&& fault is TamperCiphertext ==> is == was.update(19, was[19] ^ 1)
            &&& fault is TamperHeaderCounter ==> is == was.update(7, was[7] ^ 1)
            &&& fault is BadMagic ==> is == was.update(0, was[0] ^ 0xFF)
            &&& fault is BadVersion ==> is == was.update(6, 0xFF)
            &&& fault is InflateLength ==> is == was.update(15, 0xFF)
            &&& fault is TruncateTag ==> is == was.subrange(0, n - 16)
            &&& fault is ZeroCounter ==> is.len() == n && forall|i: int|
                0 <= i < n ==> #[trigger] is[i] == if 7 <= i < 15 {
                    0
                } else {
                    was[i]
                }
        }),
{
}

/// The battery holds an untouched frame, every fault, both replays and the foreign
/// session, each once.
pub proof fn law_battery_is_complete(checks: Vec<BatteryCheck>, check: BatteryCheck)
    requires
        call_ensures(crypto_attack_battery, (), checks),
    ensures
        checks@.contains(check),
        checks@.len() == 12,
        checks@.no_duplicates(),
{
    let c = checks@;
    let i: int = match check {
        BatteryCheck::Baseline => 0,
        BatteryCheck::Fault(FrameFault::TamperTag) => 1,
        BatteryCheck::Fault(FrameFault::TamperCiphertext) => 2,
        BatteryCheck::Fault(FrameFault::TamperHeaderCounter) => 3,
        BatteryCheck::Fault(FrameFault::BadMagic) => 4,
        BatteryCheck::Fault(FrameFault::BadVersion) => 5,
        BatteryCheck::Fault(FrameFault::ZeroCounter) => 6,
        BatteryCheck::Fault(FrameFault::TruncateTag) => 7,
        BatteryCheck::Fault(FrameFault::InflateLength) => 8,
        BatteryCheck::ReplayExact => 9,
        BatteryCheck::ReplayAfterAdvance => 10,
        BatteryCheck::CrossSession => 11,
    };
    assert(c[i] == check);
}

/// Every trial starts with a handshake and ends with the one judgement on it. A
/// fault is done to the frame before that; a replay opens the frame before it is
/// judged again; a foreign session judges a frame that it did not make.
pub proof fn law_trials_end_with_a_judgement(check: BatteryCheck, steps: Vec<CheckStep>)
    requires
        call_ensures(check_steps, (check,), steps),
    ensures
        ({
            let s = steps@;
            let n = s.len() as int;
            &&& n >= 3
            &&& s[0] is Handshake
            &&& s[n - 1] is Judge
            &&& forall|i: int| 0 <= i < n - 1 ==> !(#[trigger] s[i] is Judge)
            &&& check matches BatteryCheck::Fault(fault) ==> s.contains(CheckStep::Damage(fault))
            &&& !(check is Fault) ==> forall|i: int|
                0 <= i < n ==> !(#[trigger] s[i] is Damage)
            &&& check is ReplayExact || check is ReplayAfterAdvance ==> s.contains(
                CheckStep::MustOpen { frame: 0 },
            ) && s[n - 1] == (CheckStep::Judge { session: 0, frame: 0 })
            &&& check is ReplayAfterAdvance ==> s.contains(CheckStep::MustOpen { frame: 1 })
            &&& check is CrossSession ==> s[1] is Handshake && s[n - 1] == (CheckStep::Judge {
                session: 1,
                frame: 0,
            })
            &&& check is Baseline || check is Fault ==> s[n - 1] == (CheckStep::Judge {
                session: 0,
                frame: 0,
            })
        }),
{
    let s = steps@;
    match check {
        BatteryCheck::Baseline => {},
        BatteryCheck::Fault(fault) => {
            assert(s[2] == CheckStep::Damage(fault));
        },
        BatteryCheck::ReplayExact => {
            assert(s[2] == (CheckStep::MustOpen { frame: 0 }));
        },
        BatteryCheck::ReplayAfterAdvance => {
            assert(s[3] == (CheckStep::MustOpen { frame: 0 }));
            assert(s[4] == (CheckStep::MustOpen { frame: 1 }));
        },
        BatteryCheck::CrossSession => {},
    }
}

/// A row passes exactly where an untouched frame came through as it was sent, or
/// any other was refused.
pub proof fn law_row_passes_by_what_came_through(
    check: BatteryCheck,
    plaintext: &[u8],
    opened: &Result<Vec<u8>>,
    row: AttackRow,
)
    requires
        call_ensures(battery_row, (check, plaintext, opened), row),
    ensures
        check is Baseline ==> (row@.pass <==> opened is Ok && opened->Ok_0@ == plaintext@),
        !(check is Baseline) ==> (row@.pass <==> opened is Err),
        check is Baseline ==> row@.expected == "deliver"@,
        !(check is Baseline) ==> row@.expected == "reject"@,
{
}

/// A relay passes application frames on as they are, with one bit turned, or
/// twice, as the attack says.
pub proof fn law_relay_does_as_the_attack_says(bytes: Seq<u8>)
    requires
        bytes.len() <= 256,
    ensures
        relayed(RelayAttack::Passthrough, base64_standard(bytes)) == seq![base64_standard(bytes)],
        relayed(RelayAttack::Duplicate, base64_standard(bytes)) == seq![
            base64_standard(bytes),
            base64_standard(bytes),
        ],
        bytes.len() > 0 ==> relayed(RelayAttack::TamperPayload, base64_standard(bytes)) == seq![
            base64_standard(bytes.update(bytes.len() - 1, bytes.last() ^ 1)),
        ],
{
    let text = base64_standard(bytes);
    assert(base64_standard(bytes) == text);
    let found = encoded_bytes(text);
    law_base64_tells_bytes(bytes, found->0);
}

/// A relay confirms the first name of a connection and no other, and forwards
/// datagrams from whom and to whom they say.
pub proof fn law_relay_confirms_one_name(
    connection: &mut RelayConnection,
    attack: RelayAttack,
    request: RelayRequest,
    action: RelayAction,
)
    requires
        call_ensures(RelayConnection::handle, (connection, attack, request), action),
    ensures
        request matches RelayRequest::Register { peer_id } ==> {
            &&& old(connection).registered is None ==> (action matches RelayAction::Confirm {
                peer_id: confirmed,
            } && confirmed@ == peer_id@) && final(connection).registered is Some
                && final(connection).registered->0@ == peer_id@
            &&& old(connection).registered is Some ==> action is Ignore
                && final(connection).registered == old(connection).registered
        },
        request matches RelayRequest::Datagram { source, destination, payload_base64 } ==> (
        action matches RelayAction::Forward { source: s, destination: d, payloads } && s == source
            && d == destination && texts(payloads@) == relayed(attack, payload_base64@))
            && final(connection).registered == old(connection).registered,
        request is Other ==> action is Ignore && final(connection).registered == old(
            connection,
        ).registered,
{
}

/// A live trial passes where as many frames came through, over the relay, as
/// should, or where none should and the connection was refused.
pub proof fn law_live_trial_passes_by_what_was_delivered(
    test: &LiveRelayTest,
    outcome: &LiveRelayOutcome,
    row: AttackRow,
)
    requires
        call_ensures(live_relay_row, (test, outcome), row),
    ensures
        outcome is Refused ==> (row@.pass <==> test.expected_delivered == 0),
        outcome matches LiveRelayOutcome::Connected { path_kind, delivered } ==> (row@.pass <==> (
        delivered == test.expected_delivered && path_kind is Relay)),
{
}

/// Untouched frames should all arrive, tampered ones never, and a duplicated one
/// once.
pub proof fn law_live_trials_expect(attack: RelayAttack, test: LiveRelayTest)
    requires
        call_ensures(LiveRelayTest::new, (attack,), test),
    ensures
        test.attack == attack,
        test.send_count > 0,
        attack is Passthrough ==> test.expected_delivered == test.send_count,
        attack is TamperPayload ==> test.expected_delivered == 0,
        attack is Duplicate ==> test.send_count == 1 && test.expected_delivered == 1,
{
}

/// A watch counts every frame, polls on after each, and ends at the first empty
/// poll after its deadline.
pub proof fn law_watch_counts_until_the_deadline(
    watch: &mut DeliveryWatch,
    frame_received: bool,
    now: Instant,
    step: WatchStep,
)
    requires
        call_ensures(DeliveryWatch::observe, (watch, frame_received, now), step),
    ensures
        final(watch).deadline == old(watch).deadline,
        frame_received ==> final(watch).delivered == old(watch).delivered + 1 && step is Poll,
        !frame_received ==> final(watch).delivered == old(watch).delivered,
        !frame_received && now.nanos < old(watch).deadline.nanos ==> step is Pause,
        !frame_received && now.nanos >= old(watch).deadline.nanos ==> step is Finish,
{
}

/// A scenario names one part of the self-test, or all of it; any other name is
/// refused.
pub proof fn law_scenarios_name_their_parts(scenario: &str, r: Result<ChannelAttackPlan>)
    requires
        call_ensures(plan_channel_attack, (scenario,), r),
    ensures
        ({
            let all = scenario@ == "all"@;
            let crypto = scenario@ == "crypto"@;
            let baseline = scenario@ == "relay-baseline"@;
            let tamper = scenario@ == "relay-tamper"@;
            let replay = scenario@ == "relay-replay"@;
            &&& r is Ok <==> all || crypto || baseline || tamper || replay
            &&& r matches Ok(plan) ==> {
                &&& plan.crypto <==> all || crypto
                &&& plan.relay_baseline <==> all || baseline
                &&& plan.relay_tamper <==> all || tamper
                &&& plan.relay_replay <==> all || replay
            }
        }),
{
}

/// The self-test succeeds exactly where every row passed.
pub proof fn law_self_test_needs_every_row(
    scenario: &str,
    rows: &Vec<AttackRow>,
    r: (String, Result<()>),
)
    requires
        call_ensures(conclude_channel_attack, (scenario, rows), r),
    ensures
        r.1 is Ok <==> forall|i: int| 0 <= i < rows@.len() ==> (#[trigger] rows@[i])@.pass,
{
    let views = row_views(rows@);
    law_one_breach_fails_the_test(views);
    assert(views.len() == rows@.len());
    if forall|i: int| 0 <= i < rows@.len() ==> (#[trigger] rows@[i])@.pass {
        assert forall|i: int| 0 <= i < views.len() implies (#[trigger] views[i]).pass by {
            assert(views[i] == rows@[i]@);
        }
    }
    if forall|i: int| 0 <= i < views.len() ==> (#[trigger] views[i]).pass {
        assert forall|i: int| 0 <= i < rows@.len() implies (#[trigger] rows@[i])@.pass by {
            assert(views[i].pass);
        }
    }
}

/// A row tells what came through: the refusal, an untouched frame as it was or
/// spoiled, or a breach.
pub proof fn law_row_tells_what_came_through(
    check: BatteryCheck,
    plaintext: Seq<u8>,
    opened: Result<Seq<u8>, QlinkErrorView>,
)
    ensures
        ({
            let row = check_row(check, plaintext, opened);
            &&& opened matches Err(e) ==> row.observed == "reject:"@ + error_text(e)
            &&& check is Baseline && opened is Ok && opened->Ok_0 == plaintext ==> row.observed
                == "delivered-intact"@
            &&& check is Baseline && opened is Ok && opened->Ok_0 != plaintext ==> row.observed
                == "delivered-CORRUPT(!)"@
            &&& check is Fault && opened is Ok ==> row.observed == "delivered(!)"@
            &&& (check is ReplayExact || check is ReplayAfterAdvance) && opened is Ok
                ==> row.observed == "delivered-twice(!)"@
            &&& check is CrossSession && opened is Ok ==> row.observed
                == "delivered-cross-session(!)"@
            &&& check is CrossSession ==> row.layer == "key-isolation"@
            &&& check is ReplayExact || check is ReplayAfterAdvance ==> row.layer
                == "replay-window"@
            &&& check is Baseline || check is Fault ==> row.layer == "pqc-frame"@
        }),
{
}

/// A report has one line for each row, with its verdict.
pub proof fn law_report_has_a_line_for_each_row(rows: Seq<AttackRowView>, row: AttackRowView)
    ensures
        row_lines(Seq::<AttackRowView>::empty()) == Seq::<char>::empty(),
        row_lines(rows.push(row)) == row_lines(rows) + ("attack="@ + row.name + " layer="@
            + row.layer + " expected="@ + row.expected + " observed="@ + row.observed
            + " verdict="@ + (if row.pass {
            "PASS"@
        } else {
            "FAIL"@
        }) + "\n"@),
        row.pass ==> passed_count(rows.push(row)) == passed_count(rows) + 1,
        !row.pass ==> passed_count(rows.push(row)) == passed_count(rows),
        passed_count(Seq::<AttackRowView>::empty()) == 0,
{
    assert(rows.push(row).drop_last() =~= rows);
}

/// A live trial that is skipped says so, where one was asked for.
pub proof fn law_skipped_trials_say_so(plan: &ChannelAttackPlan, r: Option<AttackRow>)
    requires
        call_ensures(skipped_relay_row, (plan,), r),
    ensures
        r is Some <==> plan.relay_baseline || plan.relay_tamper || plan.relay_replay,
        r matches Some(row) ==> row@.pass && row@.expected == "n/a"@,
{
}

} // verus!
