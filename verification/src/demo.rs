//! A small workload to try an event source with: Fibonacci numbers.

use vstd::prelude::*;

verus! {

/// The Fibonacci numbers, counted from 0 and beginning 1, 1, 2, 3, 5.
pub open spec fn fibonacci(n: nat) -> nat
    decreases n,
{
    if n <= 1 {
        1
    } else {
        fibonacci((n - 1) as nat) + fibonacci((n - 2) as nat)
    }
}

/// Later Fibonacci numbers are no smaller than earlier ones.
pub proof fn lemma_fibonacci_grows(i: nat, j: nat)
    requires
        i <= j,
    ensures
        fibonacci(i) <= fibonacci(j),
    decreases j,
{
    if i < j {
        lemma_fibonacci_grows(i, (j - 1) as nat);
    }
}

/// The greatest index whose Fibonacci number fits into 64 bits.
pub const LAST_INDEX: u64 = 92;

/// The Fibonacci number with index `LAST_INDEX` fits into 64 bits, and the
/// next one does not.
pub proof fn lemma_last_index()
    ensures
        fibonacci(LAST_INDEX as nat) == 12200160415121876738,
        fibonacci(LAST_INDEX as nat) <= u64::MAX,
        fibonacci((LAST_INDEX + 1) as nat) > u64::MAX,
{
    // Each number follows from the two before it.
    assert(fibonacci(0) == 1);
    assert(fibonacci(1) == 1);
    assert(fibonacci(2) == 2);
    assert(fibonacci(3) == 3);
    assert(fibonacci(4) == 5);
    assert(fibonacci(5) == 8);
    assert(fibonacci(6) == 13);
    assert(fibonacci(7) == 21);
    assert(fibonacci(8) == 34);
    assert(fibonacci(9) == 55);
    assert(fibonacci(10) == 89);
    assert(fibonacci(11) == 144);
    assert(fibonacci(12) == 233);
    assert(fibonacci(13) == 377);
    assert(fibonacci(14) == 610);
    assert(fibonacci(15) == 987);
    assert(fibonacci(16) == 1597);
    assert(fibonacci(17) == 2584);
    assert(fibonacci(18) == 4181);
    assert(fibonacci(19) == 6765);
    assert(fibonacci(20) == 10946);
    assert(fibonacci(21) == 17711);
    assert(fibonacci(22) == 28657);
    assert(fibonacci(23) == 46368);
    assert(fibonacci(24) == 75025);
    assert(fibonacci(25) == 121393);
    assert(fibonacci(26) == 196418);
    assert(fibonacci(27) == 317811);
    assert(fibonacci(28) == 514229);
    assert(fibonacci(29) == 832040);
    assert(fibonacci(30) == 1346269);
    assert(fibonacci(31) == 2178309);
    assert(fibonacci(32) == 3524578);
    assert(fibonacci(33) == 5702887);
    assert(fibonacci(34) == 9227465);
    assert(fibonacci(35) == 14930352);
    assert(fibonacci(36) == 24157817);
    assert(fibonacci(37) == 39088169);
    assert(fibonacci(38) == 63245986);
    assert(fibonacci(39) == 102334155);
    assert(fibonacci(40) == 165580141);
    assert(fibonacci(41) == 267914296);
    assert(fibonacci(42) == 433494437);
    assert(fibonacci(43) == 701408733);
    assert(fibonacci(44) == 1134903170);
    assert(fibonacci(45) == 1836311903);
    assert(fibonacci(46) == 2971215073);
    assert(fibonacci(47) == 4807526976);
    assert(fibonacci(48) == 7778742049);
    assert(fibonacci(49) == 12586269025);
    assert(fibonacci(50) == 20365011074);
    assert(fibonacci(51) == 32951280099);
    assert(fibonacci(52) == 53316291173);
    assert(fibonacci(53) == 86267571272);
    assert(fibonacci(54) == 139583862445);
    assert(fibonacci(55) == 225851433717);
    assert(fibonacci(56) == 365435296162);
    assert(fibonacci(57) == 591286729879);
    assert(fibonacci(58) == 956722026041);
    assert(fibonacci(59) == 1548008755920);
    assert(fibonacci(60) == 2504730781961);
    assert(fibonacci(61) == 4052739537881);
    assert(fibonacci(62) == 6557470319842);
    assert(fibonacci(63) == 10610209857723);
    assert(fibonacci(64) == 17167680177565);
    assert(fibonacci(65) == 27777890035288);
    assert(fibonacci(66) == 44945570212853);
    assert(fibonacci(67) == 72723460248141);
    assert(fibonacci(68) == 117669030460994);
    assert(fibonacci(69) == 190392490709135);
    assert(fibonacci(70) == 308061521170129);
    assert(fibonacci(71) == 498454011879264);
    assert(fibonacci(72) == 806515533049393);
    assert(fibonacci(73) == 1304969544928657);
    assert(fibonacci(74) == 2111485077978050);
    assert(fibonacci(75) == 3416454622906707);
    assert(fibonacci(76) == 5527939700884757);
    assert(fibonacci(77) == 8944394323791464);
    assert(fibonacci(78) == 14472334024676221);
    assert(fibonacci(79) == 23416728348467685);
    assert(fibonacci(80) == 37889062373143906);
    assert(fibonacci(81) == 61305790721611591);
    assert(fibonacci(82) == 99194853094755497);
    assert(fibonacci(83) == 160500643816367088);
    assert(fibonacci(84) == 259695496911122585);
    assert(fibonacci(85) == 420196140727489673);
    assert(fibonacci(86) == 679891637638612258);
    assert(fibonacci(87) == 1100087778366101931);
    assert(fibonacci(88) == 1779979416004714189);
    assert(fibonacci(89) == 2880067194370816120);
    assert(fibonacci(90) == 4660046610375530309);
    assert(fibonacci(91) == 7540113804746346429);
    assert(fibonacci(92) == 12200160415121876738);
    assert(fibonacci(93) == 19740274219868223167);
}

/// Whether the Fibonacci number with index `n` fits into 64 bits.
pub fn fits(n: u64) -> (small: bool)
    ensures
        small == (fibonacci(n as nat) <= u64::MAX),
{
    proof {
        lemma_last_index();
        if n <= LAST_INDEX {
            lemma_fibonacci_grows(n as nat, LAST_INDEX as nat);
        } else {
            lemma_fibonacci_grows((LAST_INDEX + 1) as nat, n as nat);
        }
    }
    n <= LAST_INDEX
}

/// The Fibonacci number with index `n`.
pub fn nth_fibonacci(n: u64) -> (value: u64)
    requires
        fibonacci(n as nat) <= u64::MAX,
    ensures
        value == fibonacci(n as nat),
    decreases n,
{
    if n == 0 || n == 1 {
        1
    } else {
        proof {
            lemma_fibonacci_grows((n - 1) as nat, n as nat);
            lemma_fibonacci_grows((n - 2) as nat, n as nat);
        }
        nth_fibonacci(n - 1) + nth_fibonacci(n - 2)
    }
}

/// The Fibonacci numbers with the indices 0 to `to`.
pub fn fibonacci_seq(to: u64) -> (sequence: Vec<u64>)
    requires
        fibonacci(to as nat) <= u64::MAX,
    ensures
        sequence@.len() == to + 1,
        forall|i: int| 0 <= i <= to ==> sequence@[i] == fibonacci(i as nat),
{
    proof {
        lemma_last_index();
        if to > LAST_INDEX {
            lemma_fibonacci_grows((LAST_INDEX + 1) as nat, to as nat);
        }
    }
    let mut sequence: Vec<u64> = Vec::new();
    let mut n: u64 = 0;
    while n <= to
        invariant
            n <= to + 1,
            to < u64::MAX,
            fibonacci(to as nat) <= u64::MAX,
            sequence@.len() == n,
            forall|i: int| 0 <= i < n ==> sequence@[i] == fibonacci(i as nat),
        decreases to + 1 - n,
    {
        proof {
            lemma_fibonacci_grows(n as nat, to as nat);
        }
        sequence.push(nth_fibonacci(n));
        n += 1;
    }
    sequence
}

} // verus!
