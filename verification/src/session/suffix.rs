//! The suffixes of session ids: short, and never the same twice in one process.

use vstd::prelude::*;
use vstd::set_lib::{lemma_int_range, lemma_len_subset, set_int_range};
use crate::text::{hex_digit, hex_padded, hex_text};

verus! {

/// How many suffixes there are: eight hexadecimal digits write so many numbers.
pub const SUFFIX_COUNT: u64 = 0x1_0000_0000;

/// What a process has to remember to use no suffix twice.
#[derive(Debug)]
pub struct Suffixes {
    /// How many suffixes were asked for.
    pub counter: u64,
    /// The numbers behind the suffixes that were handed out, in their order.
    pub used: Vec<u32>,
}

/// What a process has to remember to use no suffix twice.
#[verifier::ext_equal]
pub struct SuffixesView {
    pub counter: u64,
    pub used: Seq<u32>,
}

impl View for Suffixes {
    type V = SuffixesView;

    open spec fn view(&self) -> SuffixesView {
        SuffixesView { counter: self.counter, used: self.used@ }
    }
}

/// The clock, the process and the counter mixed into one number: the low 32 bits of
/// the clock's nanoseconds, the process spread over them, and the counter.
pub open spec fn mixed(nanos: u64, pid: u32, counter: u64) -> u32 {
    ((nanos ^ ((pid as u64 * 0x9e3779b9) as u64) ^ counter) & 0xffff_ffff) as u32
}

/// The number that is some steps on from another. The largest is followed by 0.
pub open spec fn steps_on(start: u32, steps: int) -> u32 {
    ((start + steps) % SUFFIX_COUNT as int) as u32
}

/// Tells whether the first number that is not used, from `start` on, is some steps on.
pub open spec fn is_first_free(used: Seq<u32>, start: u32, steps: int) -> bool {
    &&& 0 <= steps < SUFFIX_COUNT
    &&& !used.contains(steps_on(start, steps))
    &&& forall|j: int| 0 <= j < steps ==> used.contains(#[trigger] steps_on(start, j))
}

/// Tells whether there is a number that is not used.
pub open spec fn some_free(used: Seq<u32>, start: u32) -> bool {
    exists|steps: int| #[trigger] is_first_free(used, start, steps)
}

/// The first number that is not used, from `start` on; `start` where all are used.
pub open spec fn first_free(used: Seq<u32>, start: u32) -> u32 {
    if some_free(used, start) {
        steps_on(start, choose|steps: int| #[trigger] is_first_free(used, start, steps))
    } else {
        start
    }
}

impl SuffixesView {
    /// The number behind the next suffix: the clock, the process and the counter
    /// mixed, or the next number after that which was not used yet.
    pub open spec fn number(self, nanos: u64, pid: u32) -> u32 {
        first_free(self.used, mixed(nanos, pid, self.counter))
    }

    /// What is remembered after the next suffix was handed out.
    pub open spec fn after(self, nanos: u64, pid: u32) -> SuffixesView {
        let number = self.number(nanos, pid);
        SuffixesView {
            counter: if self.counter == u64::MAX {
                0
            } else {
                (self.counter + 1) as u64
            },
            used: if self.used.contains(number) {
                self.used
            } else {
                self.used.push(number)
            },
        }
    }

    /// What is remembered after calls at the given readings of the clock.
    pub open spec fn after_all(self, clock: Seq<u64>, pid: u32) -> SuffixesView
        decreases clock.len(),
    {
        if clock.len() == 0 {
            self
        } else {
            self.after_all(clock.drop_last(), pid).after(clock.last(), pid)
        }
    }

    /// The number that one of the calls at the given readings of the clock gives.
    pub open spec fn number_of_call(self, clock: Seq<u64>, pid: u32, i: int) -> u32 {
        self.after_all(clock.take(i), pid).number(clock[i], pid)
    }
}

/// The suffix for a number: eight hexadecimal digits.
pub open spec fn suffix_text(number: u32) -> Seq<char> {
    hex_text(number as nat, 8)
}

impl Suffixes {
    /// What a process remembers at its start.
    pub fn new() -> (r: Suffixes)
        ensures
            r@ == (SuffixesView { counter: 0, used: Seq::empty() }),
    {
        let r = Suffixes { counter: 0, used: Vec::new() };
        proof {
            assert(r@ =~= SuffixesView { counter: 0, used: Seq::empty() });
        }
        r
    }

    /// Tells whether a number is used.
    fn is_used(&self, number: u32) -> (r: bool)
        ensures
            r == self.used@.contains(number),
    {
        let mut i: usize = 0;
        while i < self.used.len()
            invariant
                i <= self.used@.len(),
                forall|j: int| 0 <= j < i ==> self.used@[j] != number,
            decreases self.used@.len() - i,
        {
            if self.used[i] == number {
                return true;
            }
            i += 1;
        }
        false
    }

    /// Finds the first number that is not used, from `start` on.
    fn find_free(&self, start: u32) -> (r: Option<u32>)
        ensures
            match r {
                Some(number) => number == first_free(self.used@, start) && !self.used@.contains(
                    number,
                ),
                None => !some_free(self.used@, start),
            },
    {
        let mut steps: u64 = 0;
        while steps < SUFFIX_COUNT
            invariant
                steps <= SUFFIX_COUNT,
                forall|j: int|
                    0 <= j < steps ==> self.used@.contains(#[trigger] steps_on(start, j)),
            decreases SUFFIX_COUNT - steps,
        {
            let number: u32 = ((start as u64 + steps) % SUFFIX_COUNT) as u32;
            proof {
                assert(number == steps_on(start, steps as int));
            }
            if !self.is_used(number) {
                proof {
                    assert(is_first_free(self.used@, start, steps as int));
                    lemma_first_free(self.used@, start, steps as int);
                }
                return Some(number);
            }
            steps += 1;
        }
        None
    }
}

/// Makes a suffix that this process has not used yet, from the clock's nanoseconds, the
/// process, and the counter of the suffixes. Once there are none left, they repeat.
pub fn short_suffix(suffixes: &mut Suffixes, nanos: u64, pid: u32) -> (r: String)
    ensures
        r@ == suffix_text(old(suffixes)@.number(nanos, pid)),
        final(suffixes)@ == old(suffixes)@.after(nanos, pid),
        old(suffixes)@.used.len() < SUFFIX_COUNT ==> final(suffixes)@.used == old(
            suffixes,
        )@.used.push(old(suffixes)@.number(nanos, pid)) && forall|i: int|
            0 <= i < old(suffixes)@.used.len() ==> r@ != suffix_text(
                #[trigger] old(suffixes)@.used[i],
            ),
{
    let ghost before = suffixes@;
    let spread: u64 = (pid as u64).wrapping_mul(0x9e3779b9);
    proof {
        assert(pid as u64 * 0x9e3779b9 <= u64::MAX) by (nonlinear_arith)
            requires
                pid <= 0xffff_ffff,
        ;
    }
    let start: u32 = ((nanos ^ spread ^ suffixes.counter) & 0xffff_ffff) as u32;
    let number: u32 = match suffixes.find_free(start) {
        Some(number) => {
            suffixes.used.push(number);
            number
        },
        None => {
            proof {
                assert(before.used.contains(start)) by {
                    if !before.used.contains(start) {
                        assert(steps_on(start, 0) == start);
                        assert(is_first_free(before.used, start, 0));
                    }
                }
            }
            start
        },
    };
    suffixes.counter = suffixes.counter.wrapping_add(1);
    proof {
        assert(number == before.number(nanos, pid));
        assert(suffixes@ =~= before.after(nanos, pid));
        if before.used.len() < SUFFIX_COUNT {
            law_suffix_is_new(before, nanos, pid);
        }
    }
    hex_padded(number as u64, 8)
}

/// There is one first number that is not used.
proof fn lemma_first_free(used: Seq<u32>, start: u32, steps: int)
    requires
        is_first_free(used, start, steps),
    ensures
        some_free(used, start),
        first_free(used, start) == steps_on(start, steps),
{
    let found = choose|found: int| #[trigger] is_first_free(used, start, found);
    assert(is_first_free(used, start, found));
    if found < steps {
        assert(used.contains(steps_on(start, found)));
    } else if steps < found {
        assert(used.contains(steps_on(start, steps)));
    }
}

/// Where some number is not used, there is a first one.
proof fn lemma_least_free(used: Seq<u32>, start: u32, steps: int)
    requires
        0 <= steps < SUFFIX_COUNT,
        !used.contains(steps_on(start, steps)),
    ensures
        some_free(used, start),
    decreases steps,
{
    if exists|j: int| 0 <= j < steps && !used.contains(#[trigger] steps_on(start, j)) {
        let j = choose|j: int| 0 <= j < steps && !used.contains(#[trigger] steps_on(start, j));
        lemma_least_free(used, start, j);
    } else {
        assert(is_first_free(used, start, steps));
    }
}

/// A list that is shorter than there are numbers does not have them all.
proof fn lemma_some_free(used: Seq<u32>, start: u32)
    requires
        used.len() < SUFFIX_COUNT,
    ensures
        some_free(used, start),
{
    if !some_free(used, start) {
        let n = SUFFIX_COUNT as int;
        let numbers = used.map_values(|number: u32| number as int);
        assert forall|k: int| set_int_range(0, n).contains(k) implies numbers.to_set().contains(
            k,
        ) by {
            let steps = (k - start) % n;
            assert(steps_on(start, steps) == k);
            if !used.contains(steps_on(start, steps)) {
                lemma_least_free(used, start, steps);
            }
            let i = used.index_of(k as u32);
            assert(numbers[i] == k);
        }
        lemma_int_range(0, n);
        vstd::seq_lib::seq_to_set_is_finite(numbers);
        lemma_len_subset(set_int_range(0, n), numbers.to_set());
        numbers.lemma_cardinality_of_set();
    }
}

proof fn lemma_hex_text(n: nat, width: nat)
    ensures
        hex_text(n, width).len() == width,
        forall|i: int| 0 <= i < width ==> is_hex(#[trigger] hex_text(n, width)[i]),
    decreases width,
{
    if width > 0 {
        lemma_hex_text(n / 16, (width - 1) as nat);
        let front = hex_text(n / 16, (width - 1) as nat);
        let all = hex_text(n, width);
        assert forall|i: int| 0 <= i < width implies is_hex(#[trigger] all[i]) by {
            if i < width - 1 {
                assert(all[i] == front[i]);
            }
        }
    }
}

/// Tells whether a character is a lower-case hexadecimal digit.
pub open spec fn is_hex(c: char) -> bool {
    '0' <= c <= '9' || 'a' <= c <= 'f'
}

/// 16 to the `width`: the numbers below it are those that `width` hexadecimal
/// digits can write.
spec fn hex_range(width: nat) -> nat
    decreases width,
{
    if width == 0 {
        1
    } else {
        16 * hex_range((width - 1) as nat)
    }
}

/// Two numbers in range are told apart by their digits.
proof fn lemma_hex_tells_apart(a: nat, b: nat, width: nat)
    requires
        a < hex_range(width),
        b < hex_range(width),
        hex_text(a, width) == hex_text(b, width),
    ensures
        a == b,
    decreases width,
{
    if width > 0 {
        let x = hex_text(a, width);
        let y = hex_text(b, width);
        assert(x.last() == hex_digit(a % 16));
        assert(y.last() == hex_digit(b % 16));
        assert(a % 16 == b % 16);
        assert(x.drop_last() =~= hex_text(a / 16, (width - 1) as nat));
        assert(y.drop_last() =~= hex_text(b / 16, (width - 1) as nat));
        lemma_hex_tells_apart(a / 16, b / 16, (width - 1) as nat);
    }
}

/// A suffix is eight hexadecimal digits.
pub proof fn law_suffix_shape(number: u32)
    ensures
        suffix_text(number).len() == 8,
        forall|i: int| 0 <= i < 8 ==> is_hex(#[trigger] suffix_text(number)[i]),
{
    lemma_hex_text(number as nat, 8);
}

/// Different numbers have different suffixes.
pub proof fn law_suffix_tells_numbers_apart(a: u32, b: u32)
    ensures
        suffix_text(a) == suffix_text(b) <==> a == b,
{
    reveal_with_fuel(hex_range, 9);
    assert(hex_range(8) == SUFFIX_COUNT);
    if suffix_text(a) == suffix_text(b) {
        lemma_hex_tells_apart(a as nat, b as nat, 8);
    }
}

/// As long as there are suffixes left, the next one is none of those that were handed
/// out, and joins them.
pub proof fn law_suffix_is_new(before: SuffixesView, nanos: u64, pid: u32)
    requires
        before.used.len() < SUFFIX_COUNT,
    ensures
        !before.used.contains(before.number(nanos, pid)),
        before.after(nanos, pid).used == before.used.push(before.number(nanos, pid)),
        forall|i: int|
            0 <= i < before.used.len() ==> suffix_text(before.number(nanos, pid)) != suffix_text(
                #[trigger] before.used[i],
            ),
{
    let start = mixed(nanos, pid, before.counter);
    let number = before.number(nanos, pid);
    lemma_some_free(before.used, start);
    let steps = choose|steps: int| #[trigger] is_first_free(before.used, start, steps);
    assert(is_first_free(before.used, start, steps));
    assert forall|i: int| 0 <= i < before.used.len() implies suffix_text(number) != suffix_text(
        #[trigger] before.used[i],
    ) by {
        law_suffix_tells_numbers_apart(number, before.used[i]);
        assert(before.used.contains(before.used[i]));
    }
}

/// A suffix keeps all of the low 32 bits of the clock: where the mix was not used yet, as
/// in a process that has handed out none, the number is the mix itself, and in one
/// process and at one count different readings mix to different numbers.
pub proof fn law_suffix_keeps_the_clock(before: SuffixesView, n1: u64, n2: u64, pid: u32)
    ensures
        !before.used.contains(mixed(n1, pid, before.counter)) ==> before.number(n1, pid) == mixed(
            n1,
            pid,
            before.counter,
        ),
        mixed(n1, pid, before.counter) == mixed(n2, pid, before.counter) <==> n1 & 0xffff_ffff
            == n2 & 0xffff_ffff,
{
    let start = mixed(n1, pid, before.counter);
    if !before.used.contains(start) {
        assert(steps_on(start, 0) == start);
        assert(is_first_free(before.used, start, 0));
        lemma_first_free(before.used, start, 0);
    }
    let spread = (pid as u64 * 0x9e3779b9) as u64;
    let counter = before.counter;
    assert((((n1 ^ spread ^ counter) & 0xffff_ffff) as u32 == ((n2 ^ spread ^ counter)
        & 0xffff_ffff) as u32) == (n1 & 0xffff_ffff == n2 & 0xffff_ffff)) by (bit_vector);
}

/// The calls of a process hand out one new number each.
proof fn lemma_calls(start: SuffixesView, clock: Seq<u64>, pid: u32)
    requires
        start.used.len() + clock.len() <= SUFFIX_COUNT,
    ensures
        start.after_all(clock, pid).used.len() == start.used.len() + clock.len(),
        forall|i: int|
            0 <= i < clock.len() ==> start.after_all(clock, pid).used[start.used.len() + i]
                == #[trigger] start.number_of_call(clock, pid, i),
    decreases clock.len(),
{
    if clock.len() > 0 {
        let front = clock.drop_last();
        let earlier = start.after_all(front, pid);
        lemma_calls(start, front, pid);
        law_suffix_is_new(earlier, clock.last(), pid);
        assert forall|i: int| 0 <= i < clock.len() implies start.after_all(
            clock,
            pid,
        ).used[start.used.len() + i] == #[trigger] start.number_of_call(clock, pid, i) by {
            if i < front.len() {
                assert(front.take(i) =~= clock.take(i));
                assert(start.number_of_call(front, pid, i) == start.number_of_call(clock, pid, i));
            } else {
                assert(clock.take(i) =~= front);
            }
        }
    }
}

/// No two calls in one process make the same suffix, whatever the clock says at each
/// of them, as long as there are suffixes left.
pub proof fn law_suffixes_differ(
    start: SuffixesView,
    clock: Seq<u64>,
    pid: u32,
    i: int,
    j: int,
)
    requires
        0 <= i < j < clock.len(),
        start.used.len() + clock.len() <= SUFFIX_COUNT,
    ensures
        start.number_of_call(clock, pid, i) != start.number_of_call(clock, pid, j),
        suffix_text(start.number_of_call(clock, pid, i)) != suffix_text(
            start.number_of_call(clock, pid, j),
        ),
{
    let front = clock.take(j);
    let earlier = start.after_all(front, pid);
    let a = start.number_of_call(clock, pid, i);
    let b = start.number_of_call(clock, pid, j);
    lemma_calls(start, front, pid);
    assert(front.take(i) =~= clock.take(i));
    assert(start.number_of_call(front, pid, i) == a);
    assert(earlier.used[start.used.len() + i] == a);
    assert(earlier.used.contains(a));
    law_suffix_is_new(earlier, clock[j], pid);
    law_suffix_tells_numbers_apart(a, b);
}

/// A suffix is made from the clock, the process and the count of the suffixes before it:
/// the low 32 bits of the three mixed, where that was not used yet, and else the first
/// number above it that was not. The count goes up by one and the number is remembered.
pub proof fn law_suffix_is_the_mix(nanos: u64, pid: u32)
    ensures
        forall|suffixes: &mut Suffixes, r: String| #[trigger]
            call_ensures(short_suffix, (suffixes, nanos, pid), r) ==> {
                let mix = ((nanos ^ ((pid as u64 * 0x9e3779b9) as u64) ^ suffixes.counter)
                    & 0xffff_ffff) as u32;
                &&& !suffixes.used@.contains(mix) ==> r@ == hex_text(mix as nat, 8)
                    && final(suffixes).used@ == suffixes.used@.push(mix)
                &&& suffixes.used@.contains(mix) && mix < 0xffff_ffff && !suffixes.used@.contains(
                    (mix + 1) as u32,
                ) ==> r@ == hex_text((mix + 1) as nat, 8) && final(suffixes).used@
                    == suffixes.used@.push((mix + 1) as u32)
                &&& suffixes.counter < u64::MAX ==> final(suffixes).counter == suffixes.counter + 1
            },
{
    assert forall|suffixes: &mut Suffixes, r: String| #[trigger]
        call_ensures(short_suffix, (suffixes, nanos, pid), r) implies {
        let mix = ((nanos ^ ((pid as u64 * 0x9e3779b9) as u64) ^ suffixes.counter)
            & 0xffff_ffff) as u32;
        &&& !suffixes.used@.contains(mix) ==> r@ == hex_text(mix as nat, 8)
            && final(suffixes).used@ == suffixes.used@.push(mix)
        &&& suffixes.used@.contains(mix) && mix < 0xffff_ffff && !suffixes.used@.contains(
            (mix + 1) as u32,
        ) ==> r@ == hex_text((mix + 1) as nat, 8) && final(suffixes).used@
            == suffixes.used@.push((mix + 1) as u32)
        &&& suffixes.counter < u64::MAX ==> final(suffixes).counter == suffixes.counter + 1
    } by {
        let used = suffixes.used@;
        let mix = mixed(nanos, pid, suffixes.counter);
        assert(suffixes@.used == used);
        assert(final(suffixes)@.used == final(suffixes).used@);
        assert(steps_on(mix, 0) == mix);
        if !used.contains(mix) {
            assert(is_first_free(used, mix, 0));
            lemma_first_free(used, mix, 0);
        } else if mix < 0xffff_ffff {
            let next = (mix + 1) as u32;
            assert(steps_on(mix, 1) == next);
            if !used.contains(next) {
                assert(is_first_free(used, mix, 1));
                lemma_first_free(used, mix, 1);
            }
        }
    }
}

} // verus!
