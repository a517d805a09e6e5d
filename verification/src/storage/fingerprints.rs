//! Which fingerprints are one and the same.

use vstd::prelude::*;

use crate::storage::plan::{
    boot_clock_fingerprint, boot_fingerprint, clock_fingerprint, gap_fingerprint, monitor_fingerprint,
};
use crate::text::{decimal, decimal_nat, digit};

verus! {

/// Whether a text holds the character that separates the parts of a
/// fingerprint.
pub open spec fn has_colon(text: Seq<char>) -> bool {
    text.contains(':')
}

proof fn lemma_decimal_nat_digits(value: nat)
    ensures
        decimal_nat(value).len() > 0,
        forall|i: int| 0 <= i < decimal_nat(value).len() ==> '0' <= #[trigger] decimal_nat(value)[i] <= '9',
    decreases value,
{
    if value >= 10 {
        lemma_decimal_nat_digits(value / 10);
    }
}

proof fn lemma_decimal_nat_injective(left: nat, right: nat)
    requires
        decimal_nat(left) == decimal_nat(right),
    ensures
        left == right,
    decreases left,
{
    lemma_decimal_nat_digits(left / 10);
    lemma_decimal_nat_digits(right / 10);
    assert(decimal_nat(left).last() == digit((left % 10) as int));
    assert(decimal_nat(right).last() == digit((right % 10) as int));
    if left >= 10 && right >= 10 {
        assert(decimal_nat(left).drop_last() =~= decimal_nat(left / 10));
        assert(decimal_nat(right).drop_last() =~= decimal_nat(right / 10));
        lemma_decimal_nat_injective(left / 10, right / 10);
    }
}

/// The decimal text of a number holds no colon, and no other number has it.
pub proof fn lemma_decimal(left: int, right: int)
    ensures
        !has_colon(decimal(left)),
        decimal(left) == decimal(right) ==> left == right,
{
    let left_digits = decimal_nat((if left < 0 { -left } else { left }) as nat);
    let right_digits = decimal_nat((if right < 0 { -right } else { right }) as nat);
    lemma_decimal_nat_digits((if left < 0 { -left } else { left }) as nat);
    lemma_decimal_nat_digits((if right < 0 { -right } else { right }) as nat);
    if left < 0 {
        assert(decimal(left)[0] == '-');
        assert forall|i: int| 0 <= i < decimal(left).len() implies decimal(left)[i] != ':' by {
            if i > 0 {
                assert(decimal(left)[i] == left_digits[i - 1]);
            }
        }
    }
    if decimal(left) == decimal(right) {
        if left < 0 && right < 0 {
            assert(decimal(left).skip(1) =~= left_digits);
            assert(decimal(right).skip(1) =~= right_digits);
            lemma_decimal_nat_injective((-left) as nat, (-right) as nat);
        } else if left >= 0 && right >= 0 {
            lemma_decimal_nat_injective(left as nat, right as nat);
        } else if left < 0 {
            assert(right_digits[0] != '-');
        } else {
            assert(decimal(right)[0] == '-');
            assert(left_digits[0] != '-');
        }
    }
}

/// A text is split at its last colon in one way only.
proof fn lemma_split_last(left: Seq<char>, left_tail: Seq<char>, right: Seq<char>, right_tail: Seq<char>)
    requires
        left + ":"@ + left_tail == right + ":"@ + right_tail,
        !has_colon(left_tail),
        !has_colon(right_tail),
    ensures
        left == right,
        left_tail == right_tail,
{
    reveal_strlit(":");
    let whole = left + ":"@ + left_tail;
    let other = right + ":"@ + right_tail;
    assert(whole[left.len() as int] == ':');
    assert(other[right.len() as int] == ':');
    assert(whole.len() == left.len() + 1 + left_tail.len());
    assert(other.len() == right.len() + 1 + right_tail.len());
    if left.len() < right.len() {
        assert(whole[right.len() as int] == left_tail[right.len() - left.len() - 1]);
        assert(left_tail.contains(':'));
    } else if right.len() < left.len() {
        assert(right_tail[left.len() - right.len() - 1] == other[left.len() as int]);
        assert(right_tail.contains(':'));
    }
    assert(left =~= whole.take(left.len() as int));
    assert(right =~= other.take(right.len() as int));
    assert(left_tail =~= whole.skip((left.len() + 1) as int));
    assert(right_tail =~= other.skip((right.len() + 1) as int));
}

/// A text is split at its first colon in one way only.
proof fn lemma_split_first(left: Seq<char>, left_tail: Seq<char>, right: Seq<char>, right_tail: Seq<char>)
    requires
        left + ":"@ + left_tail == right + ":"@ + right_tail,
        !has_colon(left),
        !has_colon(right),
    ensures
        left == right,
        left_tail == right_tail,
{
    reveal_strlit(":");
    let whole = left + ":"@ + left_tail;
    let other = right + ":"@ + right_tail;
    assert(whole[left.len() as int] == ':');
    assert(other[right.len() as int] == ':');
    if left.len() < right.len() {
        assert(right[left.len() as int] == other[left.len() as int]);
        assert(right.contains(':'));
    } else if right.len() < left.len() {
        assert(left[right.len() as int] == whole[right.len() as int]);
        assert(left.contains(':'));
    }
    assert(left =~= whole.take(left.len() as int));
    assert(right =~= other.take(right.len() as int));
    assert(left_tail =~= whole.skip((left.len() + 1) as int));
    assert(right_tail =~= other.skip((right.len() + 1) as int));
}

proof fn lemma_same_head(head: Seq<char>, left: Seq<char>, right: Seq<char>)
    requires
        head + left == head + right,
    ensures
        left == right,
{
    assert(left =~= (head + left).skip(head.len() as int));
    assert(right =~= (head + right).skip(head.len() as int));
}

/// Monitor processes of different boots, or different processes of one boot,
/// have different fingerprints.
pub proof fn law_monitor_fingerprint_injective(
    left_boot: Seq<char>,
    left_generation: int,
    right_boot: Seq<char>,
    right_generation: int,
)
    ensures
        monitor_fingerprint(left_boot, left_generation) == monitor_fingerprint(right_boot, right_generation)
            ==> left_boot == right_boot && left_generation == right_generation,
{
    if monitor_fingerprint(left_boot, left_generation) == monitor_fingerprint(right_boot, right_generation) {
        lemma_decimal(left_generation, right_generation);
        lemma_decimal(right_generation, left_generation);
        lemma_split_last(
            "monitor:"@ + left_boot,
            decimal(left_generation),
            "monitor:"@ + right_boot,
            decimal(right_generation),
        );
        lemma_same_head("monitor:"@, left_boot, right_boot);
    }
}

/// Missed heartbeats after different heartbeats have different fingerprints.
pub proof fn law_gap_fingerprint_injective(
    left_boot: Seq<char>,
    left_generation: int,
    left_boottime_ms: int,
    right_boot: Seq<char>,
    right_generation: int,
    right_boottime_ms: int,
)
    ensures
        gap_fingerprint(left_boot, left_generation, left_boottime_ms) == gap_fingerprint(
            right_boot,
            right_generation,
            right_boottime_ms,
        ) ==> left_boot == right_boot && left_generation == right_generation && left_boottime_ms
            == right_boottime_ms,
{
    if gap_fingerprint(left_boot, left_generation, left_boottime_ms) == gap_fingerprint(
        right_boot,
        right_generation,
        right_boottime_ms,
    ) {
        lemma_decimal(left_generation, right_generation);
        lemma_decimal(right_generation, left_generation);
        lemma_decimal(left_boottime_ms, right_boottime_ms);
        lemma_decimal(right_boottime_ms, left_boottime_ms);
        lemma_split_last(
            "gap:"@ + left_boot + ":"@ + decimal(left_generation),
            decimal(left_boottime_ms),
            "gap:"@ + right_boot + ":"@ + decimal(right_generation),
            decimal(right_boottime_ms),
        );
        lemma_split_last(
            "gap:"@ + left_boot,
            decimal(left_generation),
            "gap:"@ + right_boot,
            decimal(right_generation),
        );
        lemma_same_head("gap:"@, left_boot, right_boot);
    }
}

/// Clocks that ran backwards after different heartbeats have different
/// fingerprints.
pub proof fn law_clock_fingerprint_injective(
    left_boot: Seq<char>,
    left_generation: int,
    left_boottime_ms: int,
    right_boot: Seq<char>,
    right_generation: int,
    right_boottime_ms: int,
)
    ensures
        clock_fingerprint(left_boot, left_generation, left_boottime_ms) == clock_fingerprint(
            right_boot,
            right_generation,
            right_boottime_ms,
        ) ==> left_boot == right_boot && left_generation == right_generation && left_boottime_ms
            == right_boottime_ms,
{
    if clock_fingerprint(left_boot, left_generation, left_boottime_ms) == clock_fingerprint(
        right_boot,
        right_generation,
        right_boottime_ms,
    ) {
        lemma_decimal(left_generation, right_generation);
        lemma_decimal(right_generation, left_generation);
        lemma_decimal(left_boottime_ms, right_boottime_ms);
        lemma_decimal(right_boottime_ms, left_boottime_ms);
        lemma_split_last(
            "clock:"@ + left_boot + ":"@ + decimal(left_generation),
            decimal(left_boottime_ms),
            "clock:"@ + right_boot + ":"@ + decimal(right_generation),
            decimal(right_boottime_ms),
        );
        lemma_split_last(
            "clock:"@ + left_boot,
            decimal(left_generation),
            "clock:"@ + right_boot,
            decimal(right_generation),
        );
        lemma_same_head("clock:"@, left_boot, right_boot);
    }
}

/// Changes between different boots have different fingerprints, both as
/// changes of the boot and as clocks that ran backwards, as long as the boots
/// that went before are named without a colon.
pub proof fn law_boot_fingerprint_injective(
    left_previous: Seq<char>,
    left_current: Seq<char>,
    right_previous: Seq<char>,
    right_current: Seq<char>,
)
    requires
        !has_colon(left_previous),
        !has_colon(right_previous),
    ensures
        boot_fingerprint(left_previous, left_current) == boot_fingerprint(right_previous, right_current)
            ==> left_previous == right_previous && left_current == right_current,
        boot_clock_fingerprint(left_previous, left_current) == boot_clock_fingerprint(
            right_previous,
            right_current,
        ) ==> left_previous == right_previous && left_current == right_current,
{
    let left = left_previous + ":"@ + left_current;
    let right = right_previous + ":"@ + right_current;
    assert(boot_fingerprint(left_previous, left_current) =~= "boot:"@ + left);
    assert(boot_fingerprint(right_previous, right_current) =~= "boot:"@ + right);
    assert(boot_clock_fingerprint(left_previous, left_current) =~= "clock:boot:"@ + left);
    assert(boot_clock_fingerprint(right_previous, right_current) =~= "clock:boot:"@ + right);
    if boot_fingerprint(left_previous, left_current) == boot_fingerprint(right_previous, right_current) {
        lemma_same_head("boot:"@, left, right);
        lemma_split_first(left_previous, left_current, right_previous, right_current);
    }
    if boot_clock_fingerprint(left_previous, left_current) == boot_clock_fingerprint(
        right_previous,
        right_current,
    ) {
        lemma_same_head("clock:boot:"@, left, right);
        lemma_split_first(left_previous, left_current, right_previous, right_current);
    }
}

/// What happened shows in the first character of a fingerprint: a changed
/// boot, a restarted monitor, missed heartbeats or a clock.
pub proof fn law_fingerprint_heads(
    previous: Seq<char>,
    boot_id: Seq<char>,
    generation: int,
    last_boottime_ms: int,
)
    ensures
        boot_fingerprint(previous, boot_id)[0] == 'b',
        monitor_fingerprint(boot_id, generation)[0] == 'm',
        gap_fingerprint(boot_id, generation, last_boottime_ms)[0] == 'g',
        clock_fingerprint(boot_id, generation, last_boottime_ms)[0] == 'c',
        boot_clock_fingerprint(previous, boot_id)[0] == 'c',
{
    reveal_strlit("boot:");
    reveal_strlit("monitor:");
    reveal_strlit("gap:");
    reveal_strlit("clock:");
    reveal_strlit("clock:boot:");
}

/// A clock that ran backwards between two boots is not taken for one that ran
/// backwards within a boot, as long as that boot is not named `boot` and its
/// name has no colon.
pub proof fn law_clock_fingerprints_differ(
    previous: Seq<char>,
    current: Seq<char>,
    boot_id: Seq<char>,
    generation: int,
    last_boottime_ms: int,
)
    requires
        !has_colon(boot_id),
        boot_id != "boot"@,
    ensures
        boot_clock_fingerprint(previous, current) != clock_fingerprint(boot_id, generation, last_boottime_ms),
{
    reveal_strlit(":");
    reveal_strlit("boot");
    reveal_strlit("clock:");
    reveal_strlit("clock:boot:");
    let across_tail = previous + ":"@ + current;
    let within_tail = decimal(generation) + ":"@ + decimal(last_boottime_ms);
    assert("clock:boot:"@ =~= "clock:"@ + ("boot"@ + ":"@));
    assert(boot_clock_fingerprint(previous, current) =~= "clock:"@ + ("boot"@ + ":"@ + across_tail));
    assert(clock_fingerprint(boot_id, generation, last_boottime_ms) =~= "clock:"@ + (boot_id + ":"@
        + within_tail));
    if boot_clock_fingerprint(previous, current) == clock_fingerprint(boot_id, generation, last_boottime_ms) {
        lemma_same_head("clock:"@, "boot"@ + ":"@ + across_tail, boot_id + ":"@ + within_tail);
        lemma_split_first("boot"@, across_tail, boot_id, within_tail);
    }
}

} // verus!
