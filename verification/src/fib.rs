//! The memoized recurrence evaluator: the n-th term of the sequence
//! F(0) = 0, F(1) = 1, F(n) = F(n-1) + F(n-2), computed bottom-up with a
//! cache so that each distinct index is computed at most once per call.

use std::collections::HashMap;
use vstd::prelude::*;

verus! {

/// Largest index whose term still fits in a `u128`.
pub const MAX_INDEX: u128 = 186;

/// Exact value of the term at `MAX_INDEX`, the largest term a `u128` can hold.
pub const MAX_TERM: u128 = 332825110087067562321196029789634457848;

/// The mathematical recurrence the evaluator computes.
pub open spec fn fib(n: nat) -> nat
    decreases n,
{
    if n == 0 {
        0
    } else if n == 1 {
        1
    } else {
        fib((n - 1) as nat) + fib((n - 2) as nat)
    }
}

/// Growing the index by one never shrinks the term.
proof fn lemma_fib_step(n: nat)
    ensures
        fib(n) <= fib(n + 1),
{
}

/// The sequence is monotone: a term at a smaller index is never larger.
pub proof fn lemma_fib_monotonic(a: nat, b: nat)
    requires
        a <= b,
    ensures
        fib(a) <= fib(b),
    decreases b,
{
    if a < b {
        lemma_fib_monotonic(a, (b - 1) as nat);
        lemma_fib_step((b - 1) as nat);
    }
}

/// The term at `MAX_INDEX`, written out, so that every term up to that
/// index provably fits in a `u128`.
pub proof fn lemma_fib_max_term()
    ensures
        fib(MAX_INDEX as nat) == MAX_TERM,
{
    assert(fib(0) == 0nat);
    assert(fib(1) == 1nat);
    assert(fib(2) == 1nat);
    assert(fib(3) == 2nat);
    assert(fib(4) == 3nat);
    assert(fib(5) == 5nat);
    assert(fib(6) == 8nat);
    assert(fib(7) == 13nat);
    assert(fib(8) == 21nat);
    assert(fib(9) == 34nat);
    assert(fib(10) == 55nat);
    assert(fib(11) == 89nat);
    assert(fib(12) == 144nat);
    assert(fib(13) == 233nat);
    assert(fib(14) == 377nat);
    assert(fib(15) == 610nat);
    assert(fib(16) == 987nat);
    assert(fib(17) == 1597nat);
    assert(fib(18) == 2584nat);
    assert(fib(19) == 4181nat);
    assert(fib(20) == 6765nat);
    assert(fib(21) == 10946nat);
    assert(fib(22) == 17711nat);
    assert(fib(23) == 28657nat);
    assert(fib(24) == 46368nat);
    assert(fib(25) == 75025nat);
    assert(fib(26) == 121393nat);
    assert(fib(27) == 196418nat);
    assert(fib(28) == 317811nat);
    assert(fib(29) == 514229nat);
    assert(fib(30) == 832040nat);
    assert(fib(31) == 1346269nat);
    assert(fib(32) == 2178309nat);
    assert(fib(33) == 3524578nat);
    assert(fib(34) == 5702887nat);
    assert(fib(35) == 9227465nat);
    assert(fib(36) == 14930352nat);
    assert(fib(37) == 24157817nat);
    assert(fib(38) == 39088169nat);
    assert(fib(39) == 63245986nat);
    assert(fib(40) == 102334155nat);
    assert(fib(41) == 165580141nat);
    assert(fib(42) == 267914296nat);
    assert(fib(43) == 433494437nat);
    assert(fib(44) == 701408733nat);
    assert(fib(45) == 1134903170nat);
    assert(fib(46) == 1836311903nat);
    assert(fib(47) == 2971215073nat);
    assert(fib(48) == 4807526976nat);
    assert(fib(49) == 7778742049nat);
    assert(fib(50) == 12586269025nat);
    assert(fib(51) == 20365011074nat);
    assert(fib(52) == 32951280099nat);
    assert(fib(53) == 53316291173nat);
    assert(fib(54) == 86267571272nat);
    assert(fib(55) == 139583862445nat);
    assert(fib(56) == 225851433717nat);
    assert(fib(57) == 365435296162nat);
    assert(fib(58) == 591286729879nat);
    assert(fib(59) == 956722026041nat);
    assert(fib(60) == 1548008755920nat);
    assert(fib(61) == 2504730781961nat);
    assert(fib(62) == 4052739537881nat);
    assert(fib(63) == 6557470319842nat);
    assert(fib(64) == 10610209857723nat);
    assert(fib(65) == 17167680177565nat);
    assert(fib(66) == 27777890035288nat);
    assert(fib(67) == 44945570212853nat);
    assert(fib(68) == 72723460248141nat);
    assert(fib(69) == 117669030460994nat);
    assert(fib(70) == 190392490709135nat);
    assert(fib(71) == 308061521170129nat);
    assert(fib(72) == 498454011879264nat);
    assert(fib(73) == 806515533049393nat);
    assert(fib(74) == 1304969544928657nat);
    assert(fib(75) == 2111485077978050nat);
    assert(fib(76) == 3416454622906707nat);
    assert(fib(77) == 5527939700884757nat);
    assert(fib(78) == 8944394323791464nat);
    assert(fib(79) == 14472334024676221nat);
    assert(fib(80) == 23416728348467685nat);
    assert(fib(81) == 37889062373143906nat);
    assert(fib(82) == 61305790721611591nat);
    assert(fib(83) == 99194853094755497nat);
    assert(fib(84) == 160500643816367088nat);
    assert(fib(85) == 259695496911122585nat);
    assert(fib(86) == 420196140727489673nat);
    assert(fib(87) == 679891637638612258nat);
    assert(fib(88) == 1100087778366101931nat);
    assert(fib(89) == 1779979416004714189nat);
    assert(fib(90) == 2880067194370816120nat);
    assert(fib(91) == 4660046610375530309nat);
    assert(fib(92) == 7540113804746346429nat);
    assert(fib(93) == 12200160415121876738nat);
    assert(fib(94) == 19740274219868223167nat);
    assert(fib(95) == 31940434634990099905nat);
    assert(fib(96) == 51680708854858323072nat);
    assert(fib(97) == 83621143489848422977nat);
    assert(fib(98) == 135301852344706746049nat);
    assert(fib(99) == 218922995834555169026nat);
    assert(fib(100) == 354224848179261915075nat);
    assert(fib(101) == 573147844013817084101nat);
    assert(fib(102) == 927372692193078999176nat);
    assert(fib(103) == 1500520536206896083277nat);
    assert(fib(104) == 2427893228399975082453nat);
    assert(fib(105) == 3928413764606871165730nat);
    assert(fib(106) == 6356306993006846248183nat);
    assert(fib(107) == 10284720757613717413913nat);
    assert(fib(108) == 16641027750620563662096nat);
    assert(fib(109) == 26925748508234281076009nat);
    assert(fib(110) == 43566776258854844738105nat);
    assert(fib(111) == 70492524767089125814114nat);
    assert(fib(112) == 114059301025943970552219nat);
    assert(fib(113) == 184551825793033096366333nat);
    assert(fib(114) == 298611126818977066918552nat);
    assert(fib(115) == 483162952612010163284885nat);
    assert(fib(116) == 781774079430987230203437nat);
    assert(fib(117) == 1264937032042997393488322nat);
    assert(fib(118) == 2046711111473984623691759nat);
    assert(fib(119) == 3311648143516982017180081nat);
    assert(fib(120) == 5358359254990966640871840nat);
    assert(fib(121) == 8670007398507948658051921nat);
    assert(fib(122) == 14028366653498915298923761nat);
    assert(fib(123) == 22698374052006863956975682nat);
    assert(fib(124) == 36726740705505779255899443nat);
    assert(fib(125) == 59425114757512643212875125nat);
    assert(fib(126) == 96151855463018422468774568nat);
    assert(fib(127) == 155576970220531065681649693nat);
    assert(fib(128) == 251728825683549488150424261nat);
    assert(fib(129) == 407305795904080553832073954nat);
    assert(fib(130) == 659034621587630041982498215nat);
    assert(fib(131) == 1066340417491710595814572169nat);
    assert(fib(132) == 1725375039079340637797070384nat);
    assert(fib(133) == 2791715456571051233611642553nat);
    assert(fib(134) == 4517090495650391871408712937nat);
    assert(fib(135) == 7308805952221443105020355490nat);
    assert(fib(136) == 11825896447871834976429068427nat);
    assert(fib(137) == 19134702400093278081449423917nat);
    assert(fib(138) == 30960598847965113057878492344nat);
    assert(fib(139) == 50095301248058391139327916261nat);
    assert(fib(140) == 81055900096023504197206408605nat);
    assert(fib(141) == 131151201344081895336534324866nat);
    assert(fib(142) == 212207101440105399533740733471nat);
    assert(fib(143) == 343358302784187294870275058337nat);
    assert(fib(144) == 555565404224292694404015791808nat);
    assert(fib(145) == 898923707008479989274290850145nat);
    assert(fib(146) == 1454489111232772683678306641953nat);
    assert(fib(147) == 2353412818241252672952597492098nat);
    assert(fib(148) == 3807901929474025356630904134051nat);
    assert(fib(149) == 6161314747715278029583501626149nat);
    assert(fib(150) == 9969216677189303386214405760200nat);
    assert(fib(151) == 16130531424904581415797907386349nat);
    assert(fib(152) == 26099748102093884802012313146549nat);
    assert(fib(153) == 42230279526998466217810220532898nat);
    assert(fib(154) == 68330027629092351019822533679447nat);
    assert(fib(155) == 110560307156090817237632754212345nat);
    assert(fib(156) == 178890334785183168257455287891792nat);
    assert(fib(157) == 289450641941273985495088042104137nat);
    assert(fib(158) == 468340976726457153752543329995929nat);
    assert(fib(159) == 757791618667731139247631372100066nat);
    assert(fib(160) == 1226132595394188293000174702095995nat);
    assert(fib(161) == 1983924214061919432247806074196061nat);
    assert(fib(162) == 3210056809456107725247980776292056nat);
    assert(fib(163) == 5193981023518027157495786850488117nat);
    assert(fib(164) == 8404037832974134882743767626780173nat);
    assert(fib(165) == 13598018856492162040239554477268290nat);
    assert(fib(166) == 22002056689466296922983322104048463nat);
    assert(fib(167) == 35600075545958458963222876581316753nat);
    assert(fib(168) == 57602132235424755886206198685365216nat);
    assert(fib(169) == 93202207781383214849429075266681969nat);
    assert(fib(170) == 150804340016807970735635273952047185nat);
    assert(fib(171) == 244006547798191185585064349218729154nat);
    assert(fib(172) == 394810887814999156320699623170776339nat);
    assert(fib(173) == 638817435613190341905763972389505493nat);
    assert(fib(174) == 1033628323428189498226463595560281832nat);
    assert(fib(175) == 1672445759041379840132227567949787325nat);
    assert(fib(176) == 2706074082469569338358691163510069157nat);
    assert(fib(177) == 4378519841510949178490918731459856482nat);
    assert(fib(178) == 7084593923980518516849609894969925639nat);
    assert(fib(179) == 11463113765491467695340528626429782121nat);
    assert(fib(180) == 18547707689471986212190138521399707760nat);
    assert(fib(181) == 30010821454963453907530667147829489881nat);
    assert(fib(182) == 48558529144435440119720805669229197641nat);
    assert(fib(183) == 78569350599398894027251472817058687522nat);
    assert(fib(184) == 127127879743834334146972278486287885163nat);
    assert(fib(185) == 205697230343233228174223751303346572685nat);
    assert(fib(186) == 332825110087067562321196029789634457848nat);
}

/// Every term at an index up to `MAX_INDEX` fits in a `u128`.
pub proof fn lemma_fib_fits(n: nat)
    requires
        n <= MAX_INDEX,
    ensures
        fib(n) <= MAX_TERM < u128::MAX,
{
    lemma_fib_monotonic(n, MAX_INDEX as nat);
    lemma_fib_max_term();
}

/// The cache invariant: whatever key is present maps to the true term at
/// that index.
pub open spec fn cache_valid(m: Map<u128, u128>) -> bool {
    forall|k: u128| #[trigger] m.contains_key(k) ==> m[k] == fib(k as nat)
}

/// The cache a call of `fibonacci(n, _)` leaves behind: every entry that was
/// present stays untouched, and the indices from 2 up to `n` are filled in
/// with their terms.
pub open spec fn cache_after(m: Map<u128, u128>, n: u128) -> Map<u128, u128> {
    Map::new(
        |k: u128| m.contains_key(k) || (2 <= k <= n),
        |k: u128|
            if m.contains_key(k) {
                m[k]
            } else {
                fib(k as nat) as u128
            },
    )
}

/// After an evaluation at `n`, the cache holds the indices 2 up to `n` and
/// no key that was not already present on entry.
pub proof fn lemma_cache_after_domain(m: Map<u128, u128>, n: u128)
    ensures
        forall|k: u128|
            cache_after(m, n).contains_key(k) <==> (m.contains_key(k) || (2 <= k <= n)),
{
}

/// Filling a cache for `n` is idempotent: a second evaluation with the same
/// index finds every key it needs already present and adds nothing.
pub proof fn lemma_cache_after_idempotent(m: Map<u128, u128>, n: u128)
    ensures
        cache_after(cache_after(m, n), n) == cache_after(m, n),
{
    assert(cache_after(cache_after(m, n), n) =~= cache_after(m, n));
}

/// Reads one term out of the cache; the base cases are answered directly.
fn cached_term(map: &HashMap<u128, u128>, k: u128) -> (r: u128)
    requires
        cache_valid(map@),
        k >= 2 ==> map@.contains_key(k),
    ensures
        r == fib(k as nat),
{
    if k == 0 {
        0
    } else if k == 1 {
        1
    } else {
        match map.get(&k) {
            Some(v) => *v,
            None => {
                proof {
                    assert(false);
                }
                0
            },
        }
    }
}

/// Computes the `n`-th term of the recurrence, sharing partial results
/// through `map`: an index already present is returned as it stands, and
/// each missing index from 2 up to `n` is computed exactly once, bottom-up,
/// and stored.
///
/// The base cases are answered directly and leave the cache alone; for
/// `n >= 2` the cache afterwards holds exactly its old keys plus the indices
/// 2 up to `n`, each mapped to its true term.
pub fn fibonacci(n: u128, map: &mut HashMap<u128, u128>) -> (r: u128)
    requires
        n <= MAX_INDEX,
        n >= 2 ==> cache_valid(old(map)@),
    ensures
        r == fib(n as nat),
        n == 0 ==> r == 0,
        n == 1 ==> r == 1,
        final(map)@ == cache_after(old(map)@, n),
        n >= 2 ==> cache_valid(final(map)@),
{
    if n == 0 {
        proof {
            assert(cache_after(old(map)@, n) =~= old(map)@);
        }
        return 0;
    }
    if n == 1 {
        proof {
            assert(cache_after(old(map)@, n) =~= old(map)@);
        }
        return 1;
    }
    let ghost entry_cache = map@;
    proof {
        assert(cache_after(entry_cache, 1) =~= entry_cache);
    }
    let mut i: u128 = 2;
    while i <= n
        invariant
            2 <= i <= n + 1,
            n <= MAX_INDEX,
            cache_valid(entry_cache),
            cache_valid(map@),
            map@ == cache_after(entry_cache, (i - 1) as u128),
        decreases n + 1 - i,
    {
        if !map.contains_key(&i) {
            let a: u128 = cached_term(map, i - 1);
            let b: u128 = cached_term(map, i - 2);
            proof {
                lemma_fib_fits(i as nat);
            }
            let sum: u128 = a + b;
            map.insert(i, sum);
            proof {
                assert(map@ =~= cache_after(entry_cache, i));
            }
        } else {
            proof {
                assert(map@ =~= cache_after(entry_cache, i));
            }
        }
        i = i + 1;
    }
    cached_term(map, n)
}

/// The defensive front of the evaluator: an index past `MAX_INDEX`, whose
/// term no longer fits in a `u128`, is refused outright instead of
/// overflowing; the cache is then left untouched.
pub fn fibonacci_checked(n: u128, map: &mut HashMap<u128, u128>) -> (r: Option<u128>)
    requires
        2 <= n <= MAX_INDEX ==> cache_valid(old(map)@),
    ensures
        n <= MAX_INDEX ==> r == Some(fib(n as nat) as u128),
        n > MAX_INDEX ==> r is None && final(map)@ == old(map)@,
        n <= MAX_INDEX ==> final(map)@ == cache_after(old(map)@, n),
{
    if n <= MAX_INDEX {
        proof {
            lemma_fib_fits(n as nat);
        }
        Some(fibonacci(n, map))
    } else {
        None
    }
}

/// One user-driven evaluation: the term at `n`, computed with a cache
/// created fresh for this call and discarded afterwards, so no result is
/// ever reused across separate invocations.
pub fn fibonacci_fresh(n: u128) -> (r: Option<u128>)
    ensures
        n <= MAX_INDEX ==> r == Some(fib(n as nat) as u128),
        n > MAX_INDEX ==> r is None,
{
    let mut map: HashMap<u128, u128> = HashMap::new();
    fibonacci_checked(n, &mut map)
}

} // verus!
