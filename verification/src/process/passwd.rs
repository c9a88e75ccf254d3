//! Random password generation.
use vstd::prelude::*;
use rand::seq::{IndexedRandom, SliceRandom};

use crate::text::{append_str, decimal, decimal_string, string_of};

verus! {

/// The random generator that `rand::rng` hands out for the current thread.
#[verifier::external_type_specification]
#[verifier::external_body]
pub struct ExThreadRng(rand::rngs::ThreadRng);

/// Gets the thread-local generator with `rand::rng`. Nothing is stated of
/// its state.
#[verifier::external_body]
fn thread_rng() -> rand::rngs::ThreadRng {
    rand::rng()
}

/// Picks one element of `set` with `rand::seq::IndexedRandom::choose`.
/// The source returns `None` exactly for an empty slice and otherwise a
/// reference to one of its elements; which one is left to chance.
#[verifier::external_body]
fn choose_char(set: &[char], rng: &mut rand::rngs::ThreadRng) -> (picked: Option<char>)
    ensures
        picked is Some <==> set@.len() > 0,
        picked matches Some(c) ==> set@.contains(c),
{
    set.choose(rng).copied()
}

/// Reorders `v` with `rand::seq::SliceRandom::shuffle`. The source permutes
/// the slice by swaps, so the same elements remain, each as often as before;
/// their order is left to chance.
#[verifier::external_body]
fn shuffle_positions(v: &mut Vec<usize>, rng: &mut rand::rngs::ThreadRng)
    ensures
        final(v)@.to_multiset() == old(v)@.to_multiset(),
{
    v.as_mut_slice().shuffle(rng);
}

/// Upper-case letters used in passwords (`I`-like `L` and `O` are left out).
pub open spec fn upper_chars() -> Seq<char> {
    seq![
        'A', 'B', 'C', 'D', 'E', 'F', 'G', 'H', 'I', 'J', 'K', 'M',
        'N', 'P', 'Q', 'R', 'S', 'T', 'U', 'V', 'W', 'X', 'Y', 'Z',
    ]
}

/// Lower-case letters used in passwords (`l` and `o` are left out).
pub open spec fn lower_chars() -> Seq<char> {
    seq![
        'a', 'b', 'c', 'd', 'e', 'f', 'g', 'h', 'i', 'j', 'k', 'm',
        'n', 'p', 'q', 'r', 's', 't', 'u', 'v', 'w', 'x', 'y', 'z',
    ]
}

/// Digits used in passwords (`0` is left out).
pub open spec fn number_chars() -> Seq<char> {
    seq!['1', '2', '3', '4', '5', '6', '7', '8', '9']
}

/// Symbols used in passwords.
pub open spec fn symbol_chars() -> Seq<char> {
    seq!['!', '@', '#', '$', '%', '^', '&', '*', '_']
}

fn upper_set() -> (v: Vec<char>)
    ensures
        v@ == upper_chars(),
{
    vec![
        'A', 'B', 'C', 'D', 'E', 'F', 'G', 'H', 'I', 'J', 'K', 'M',
        'N', 'P', 'Q', 'R', 'S', 'T', 'U', 'V', 'W', 'X', 'Y', 'Z',
    ]
}

fn lower_set() -> (v: Vec<char>)
    ensures
        v@ == lower_chars(),
{
    vec![
        'a', 'b', 'c', 'd', 'e', 'f', 'g', 'h', 'i', 'j', 'k', 'm',
        'n', 'p', 'q', 'r', 's', 't', 'u', 'v', 'w', 'x', 'y', 'z',
    ]
}

fn number_set() -> (v: Vec<char>)
    ensures
        v@ == number_chars(),
{
    vec!['1', '2', '3', '4', '5', '6', '7', '8', '9']
}

fn symbol_set() -> (v: Vec<char>)
    ensures
        v@ == symbol_chars(),
{
    vec!['!', '@', '#', '$', '%', '^', '&', '*', '_']
}

/// How many of the four character sets are enabled.
pub open spec fn charset_count(uppercase: bool, lowercase: bool, numeric: bool, symbolic: bool) -> nat {
    (if uppercase { 1nat } else { 0nat }) + (if lowercase { 1nat } else { 0nat }) + (if numeric {
        1nat
    } else {
        0nat
    }) + (if symbolic { 1nat } else { 0nat })
}

/// Whether `c` belongs to one of the enabled character sets.
pub open spec fn char_allowed(c: char, uppercase: bool, lowercase: bool, numeric: bool, symbolic: bool) -> bool {
    ||| uppercase && upper_chars().contains(c)
    ||| lowercase && lower_chars().contains(c)
    ||| numeric && number_chars().contains(c)
    ||| symbolic && symbol_chars().contains(c)
}

/// Whether some character of `p` belongs to `set`.
pub open spec fn uses_set(p: Seq<char>, set: Seq<char>) -> bool {
    exists|i: int| 0 <= i < p.len() && set.contains(#[trigger] p[i])
}

/// What a generated password is: `length` characters, each from an enabled
/// set, and at least one from every enabled set.
pub open spec fn is_password(
    p: Seq<char>,
    length: nat,
    uppercase: bool,
    lowercase: bool,
    numeric: bool,
    symbolic: bool,
) -> bool {
    &&& p.len() == length
    &&& forall|i: int|
        0 <= i < p.len() ==> char_allowed(#[trigger] p[i], uppercase, lowercase, numeric, symbolic)
    &&& uppercase ==> uses_set(p, upper_chars())
    &&& lowercase ==> uses_set(p, lower_chars())
    &&& numeric ==> uses_set(p, number_chars())
    &&& symbolic ==> uses_set(p, symbol_chars())
}

/// Why no password could be made.
#[derive(Debug, Clone, Copy, PartialEq, Eq, Structural)]
pub enum GenerateError {
    /// All four character sets are disabled.
    NoCharacterSets,
}

impl GenerateError {
    /// The text shown for this error.
    pub fn message(&self) -> (m: String)
        ensures
            m@ == "No character sets available for password generation"@,
    {
        String::from_str("No character sets available for password generation")
    }
}

/// The enabled character sets, in the order upper-case letters, lower-case
/// letters, digits, symbols.
pub open spec fn enabled_sets(uppercase: bool, lowercase: bool, numeric: bool, symbolic: bool) -> Seq<
    Seq<char>,
> {
    (if uppercase {
        seq![upper_chars()]
    } else {
        Seq::empty()
    }) + (if lowercase {
        seq![lower_chars()]
    } else {
        Seq::empty()
    }) + (if numeric {
        seq![number_chars()]
    } else {
        Seq::empty()
    }) + (if symbolic {
        seq![symbol_chars()]
    } else {
        Seq::empty()
    })
}

/// The positions `0`, `1`, ..., `n - 1`.
pub open spec fn positions(n: nat) -> Seq<usize> {
    Seq::new(n, |i: int| i as usize)
}

/// `chars` in the order `order`: the `i`-th character is `chars[order[i]]`.
pub open spec fn arranged(chars: Seq<char>, order: Seq<usize>) -> Seq<char> {
    Seq::new(order.len(), |i: int| chars[order[i] as int])
}

/// The random draws a password of `length` characters is made from: one
/// character of every enabled set, in the order of [`enabled_sets`]; then
/// the characters that fill up the length, each from one of the enabled
/// sets; and the order the characters are shuffled into, a permutation of
/// their positions.
pub open spec fn valid_draws(
    firsts: Seq<char>,
    fills: Seq<char>,
    order: Seq<usize>,
    length: nat,
    uppercase: bool,
    lowercase: bool,
    numeric: bool,
    symbolic: bool,
) -> bool {
    let sets = enabled_sets(uppercase, lowercase, numeric, symbolic);
    &&& firsts.len() == sets.len()
    &&& forall|k: int| 0 <= k < firsts.len() ==> #[trigger] sets[k].contains(firsts[k])
    &&& firsts.len() + fills.len() == length
    &&& forall|i: int|
        0 <= i < fills.len() ==> char_allowed(#[trigger] fills[i], uppercase, lowercase, numeric, symbolic)
    &&& order.to_multiset() == positions(length).to_multiset()
}

/// A multiset fact: equal multisets hold the same elements.
proof fn lemma_same_multiset_contains<A>(a: Seq<A>, b: Seq<A>, x: A)
    requires
        a.to_multiset() == b.to_multiset(),
    ensures
        a.contains(x) <==> b.contains(x),
{
    a.to_multiset_ensures();
    b.to_multiset_ensures();
    assert(a.to_multiset().count(x) == b.to_multiset().count(x));
    if a.contains(x) {
        assert(a.to_multiset().count(x) > 0);
        assert(b.contains(x));
    }
    if b.contains(x) {
        assert(b.to_multiset().count(x) > 0);
        assert(a.contains(x));
    }
}

/// An arrangement of the positions below `n` has `n` entries, each below
/// `n`, and every position below `n` among them.
proof fn lemma_positions_permuted(order: Seq<usize>, n: nat)
    requires
        order.to_multiset() == positions(n).to_multiset(),
    ensures
        order.len() == n,
        forall|i: int| 0 <= i < order.len() ==> (#[trigger] order[i]) < n,
        forall|x: usize| x < n ==> #[trigger] order.contains(x),
{
    order.to_multiset_ensures();
    positions(n).to_multiset_ensures();
    assert forall|i: int| 0 <= i < order.len() implies (#[trigger] order[i]) < n by {
        assert(order.contains(order[i]));
        lemma_same_multiset_contains(order, positions(n), order[i]);
    }
    assert forall|x: usize| x < n implies #[trigger] order.contains(x) by {
        assert(positions(n)[x as int] == x);
        assert(positions(n).contains(x));
        lemma_same_multiset_contains(order, positions(n), x);
    }
}

/// A character of an enabled set is allowed.
proof fn lemma_enabled_set_allowed(
    uppercase: bool,
    lowercase: bool,
    numeric: bool,
    symbolic: bool,
    k: int,
    c: char,
)
    requires
        0 <= k < enabled_sets(uppercase, lowercase, numeric, symbolic).len(),
        enabled_sets(uppercase, lowercase, numeric, symbolic)[k].contains(c),
    ensures
        char_allowed(c, uppercase, lowercase, numeric, symbolic),
{
}

/// Draws as [`valid_draws`] describes them, arranged in their order, make a
/// password: of the asked length, with characters of the enabled sets only,
/// and at least one of every enabled set.
pub proof fn lemma_valid_draws_make_password(
    firsts: Seq<char>,
    fills: Seq<char>,
    order: Seq<usize>,
    length: nat,
    uppercase: bool,
    lowercase: bool,
    numeric: bool,
    symbolic: bool,
)
    requires
        valid_draws(firsts, fills, order, length, uppercase, lowercase, numeric, symbolic),
    ensures
        is_password(
            arranged(firsts + fills, order),
            length,
            uppercase,
            lowercase,
            numeric,
            symbolic,
        ),
{
    let sets = enabled_sets(uppercase, lowercase, numeric, symbolic);
    let chars = firsts + fills;
    let p = arranged(chars, order);
    lemma_positions_permuted(order, length);
    assert forall|i: int| 0 <= i < p.len() implies char_allowed(
        #[trigger] p[i],
        uppercase,
        lowercase,
        numeric,
        symbolic,
    ) by {
        let j = order[i] as int;
        if j < firsts.len() {
            assert(sets[j].contains(firsts[j]));
            lemma_enabled_set_allowed(uppercase, lowercase, numeric, symbolic, j, firsts[j]);
        } else {
            assert(chars[j] == fills[j - firsts.len()]);
        }
    }
    // The first character of the `k`-th enabled set stands somewhere in `p`.
    assert forall|k: int| 0 <= k < sets.len() implies uses_set(p, #[trigger] sets[k]) by {
        assert(order.contains(k as usize));
        let w = choose|w: int| 0 <= w < order.len() && order[w] == k as usize;
        assert(p[w] == firsts[k]);
        assert(sets[k].contains(firsts[k]));
    }
    let u: int = if uppercase { 1 } else { 0 };
    let l: int = if lowercase { 1 } else { 0 };
    let n: int = if numeric { 1 } else { 0 };
    if uppercase {
        assert(sets[0] == upper_chars());
    }
    if lowercase {
        assert(sets[u] == lower_chars());
    }
    if numeric {
        assert(sets[u + l] == number_chars());
    }
    if symbolic {
        assert(sets[u + l + n] == symbol_chars());
    }
}

/// The password made of the drawn characters `firsts` and `fills`, put in
/// the order `order`.
pub fn build_password(firsts: &Vec<char>, fills: &Vec<char>, order: &Vec<usize>) -> (p: String)
    requires
        forall|i: int| 0 <= i < order@.len() ==> (#[trigger] order@[i]) < firsts@.len() + fills@.len(),
    ensures
        p@ == arranged(firsts@ + fills@, order@),
{
    let ghost all = firsts@ + fills@;
    let mut chars: Vec<char> = Vec::with_capacity(order.len());
    let n = order.len();
    let mut i: usize = 0;
    while i < n
        invariant
            n == order@.len(),
            all == firsts@ + fills@,
            i <= n,
            forall|k: int| 0 <= k < order@.len() ==> (#[trigger] order@[k]) < all.len(),
            chars@ == arranged(all, order@).take(i as int),
        decreases n - i,
    {
        let j = order[i];
        let c = if j < firsts.len() {
            firsts[j]
        } else {
            fills[j - firsts.len()]
        };
        chars.push(c);
        assert(chars@ =~= arranged(all, order@).take(i + 1));
        i = i + 1;
    }
    assert(arranged(all, order@).take(n as int) =~= arranged(all, order@));
    string_of(chars.as_slice())
}

/// Appends one character of `set` to `drawn`.
fn push_from(
    drawn: &mut Vec<char>,
    set: &Vec<char>,
    rng: &mut rand::rngs::ThreadRng,
) -> (picked: char)
    requires
        set@.len() > 0,
    ensures
        set@.contains(picked),
        final(drawn)@ == old(drawn)@.push(picked),
{
    match choose_char(set.as_slice(), rng) {
        Some(c) => {
            drawn.push(c);
            c
        },
        None => {
            proof {
                assert(false);
            }
            ' '
        },
    }
}

/// Draws one character of `set`, adds `set` to the pool `chars` and to the
/// ghost list of sets, keeping the `k`-th first character in the `k`-th set.
fn draw_first(
    firsts: &mut Vec<char>,
    chars: &mut Vec<char>,
    set: Vec<char>,
    rng: &mut rand::rngs::ThreadRng,
    Ghost(sets): Ghost<Seq<Seq<char>>>,
)
    requires
        set@.len() > 0,
        old(firsts)@.len() == sets.len(),
        forall|k: int| 0 <= k < sets.len() ==> #[trigger] sets[k].contains(old(firsts)@[k]),
    ensures
        final(firsts)@.len() == sets.push(set@).len(),
        forall|k: int|
            0 <= k < sets.push(set@).len() ==> #[trigger] sets.push(set@)[k].contains(
                final(firsts)@[k],
            ),
        final(chars)@ == old(chars)@ + set@,
{
    chars.extend_from_slice(set.as_slice());
    push_from(firsts, &set, rng);
    assert forall|k: int|
        0 <= k < sets.push(set@).len() implies #[trigger] sets.push(set@)[k].contains(
        firsts@[k],
    ) by {
        if k < sets.len() {
            assert(firsts@[k] == old(firsts)@[k]);
        }
    }
}

/// Generates one password of `length` characters: one from every enabled
/// set, the rest from all enabled sets together, shuffled. The random draws
/// are those of [`valid_draws`], and the password is what [`build_password`]
/// makes of them.
pub fn gen_single_passwd(
    length: u8,
    uppercase: bool,
    lowercase: bool,
    numeric: bool,
    symbolic: bool,
) -> (res: Result<String, GenerateError>)
    requires
        charset_count(uppercase, lowercase, numeric, symbolic) <= length,
    ensures
        res is Err <==> charset_count(uppercase, lowercase, numeric, symbolic) == 0,
        res matches Err(e) ==> e == GenerateError::NoCharacterSets,
        res matches Ok(p) ==> exists|firsts: Seq<char>, fills: Seq<char>, order: Seq<usize>|
            #[trigger] valid_draws(
                firsts,
                fills,
                order,
                length as nat,
                uppercase,
                lowercase,
                numeric,
                symbolic,
            ) && p@ == arranged(firsts + fills, order),
        res matches Ok(p) ==> is_password(
            p@,
            length as nat,
            uppercase,
            lowercase,
            numeric,
            symbolic,
        ),
{
    let mut firsts: Vec<char> = Vec::new();
    let mut chars: Vec<char> = Vec::new();
    let mut rng = thread_rng();
    let ghost mut sets: Seq<Seq<char>> = Seq::empty();

    if uppercase {
        draw_first(&mut firsts, &mut chars, upper_set(), &mut rng, Ghost(sets));
        proof { sets = sets.push(upper_chars()); }
    }
    if lowercase {
        draw_first(&mut firsts, &mut chars, lower_set(), &mut rng, Ghost(sets));
        proof { sets = sets.push(lower_chars()); }
    }
    if numeric {
        draw_first(&mut firsts, &mut chars, number_set(), &mut rng, Ghost(sets));
        proof { sets = sets.push(number_chars()); }
    }
    if symbolic {
        draw_first(&mut firsts, &mut chars, symbol_set(), &mut rng, Ghost(sets));
        proof { sets = sets.push(symbol_chars()); }
    }
    assert(sets =~= enabled_sets(uppercase, lowercase, numeric, symbolic));
    assert(firsts@.len() == charset_count(uppercase, lowercase, numeric, symbolic));
    assert(forall|i: int|
        0 <= i < chars@.len() ==> char_allowed(#[trigger] chars@[i], uppercase, lowercase, numeric, symbolic));
    if chars.len() == 0 {
        return Err(GenerateError::NoCharacterSets);
    }

    let remaining = length - firsts.len() as u8;
    let mut fills: Vec<char> = Vec::new();
    let mut k: u8 = 0;
    while k < remaining
        invariant
            k <= remaining,
            fills@.len() == k,
            chars@.len() > 0,
            forall|i: int|
                0 <= i < chars@.len() ==> char_allowed(#[trigger] chars@[i], uppercase, lowercase, numeric, symbolic),
            forall|i: int|
                0 <= i < fills@.len() ==> char_allowed(#[trigger] fills@[i], uppercase, lowercase, numeric, symbolic),
        decreases remaining - k,
    {
        push_from(&mut fills, &chars, &mut rng);
        k = k + 1;
    }

    let total = firsts.len() + fills.len();
    let mut order: Vec<usize> = Vec::with_capacity(total);
    let mut i: usize = 0;
    while i < total
        invariant
            i <= total,
            order@ == positions(total as nat).take(i as int),
        decreases total - i,
    {
        order.push(i);
        assert(order@ =~= positions(total as nat).take(i + 1));
        i = i + 1;
    }
    assert(order@ =~= positions(total as nat));
    shuffle_positions(&mut order, &mut rng);
    proof {
        lemma_positions_permuted(order@, total as nat);
    }
    let p = build_password(&firsts, &fills, &order);
    proof {
        assert(valid_draws(
            firsts@,
            fills@,
            order@,
            length as nat,
            uppercase,
            lowercase,
            numeric,
            symbolic,
        ));
        lemma_valid_draws_make_password(
            firsts@,
            fills@,
            order@,
            length as nat,
            uppercase,
            lowercase,
            numeric,
            symbolic,
        );
    }
    Ok(p)
}

/// Generates `batch_count` passwords, each as [`gen_single_passwd`] makes
/// one.
pub fn process_gen_passwd(
    length: u8,
    uppercase: bool,
    lowercase: bool,
    numeric: bool,
    symbolic: bool,
    batch_count: u32,
) -> (res: Result<Vec<String>, GenerateError>)
    requires
        batch_count == 0 || charset_count(uppercase, lowercase, numeric, symbolic) <= length,
    ensures
        res is Err <==> batch_count > 0 && charset_count(uppercase, lowercase, numeric, symbolic)
            == 0,
        res matches Err(e) ==> e == GenerateError::NoCharacterSets,
        res matches Ok(v) ==> {
            &&& v@.len() == batch_count
            &&& forall|i: int|
                0 <= i < v@.len() ==> is_password(
                    #[trigger] v@[i]@,
                    length as nat,
                    uppercase,
                    lowercase,
                    numeric,
                    symbolic,
                )
        },
{
    let mut passwords: Vec<String> = Vec::with_capacity(batch_count as usize);
    let mut k: u32 = 0;
    while k < batch_count
        invariant
            k <= batch_count,
            batch_count == 0 || charset_count(uppercase, lowercase, numeric, symbolic) <= length,
            passwords@.len() == k,
            k > 0 ==> charset_count(uppercase, lowercase, numeric, symbolic) > 0,
            forall|i: int|
                0 <= i < passwords@.len() ==> is_password(
                    #[trigger] passwords@[i]@,
                    length as nat,
                    uppercase,
                    lowercase,
                    numeric,
                    symbolic,
                ),
        decreases batch_count - k,
    {
        let p = gen_single_passwd(length, uppercase, lowercase, numeric, symbolic)?;
        passwords.push(p);
        k = k + 1;
    }
    Ok(passwords)
}

/// The lines `[1] p1`, `[2] p2`, ... for `passwords`, each ending in a
/// newline.
pub open spec fn numbered_lines(passwords: Seq<Seq<char>>) -> Seq<char>
    decreases passwords.len(),
{
    if passwords.len() == 0 {
        Seq::<char>::empty()
    } else {
        numbered_lines(passwords.drop_last()) + "["@ + decimal(passwords.len()) + "] "@
            + passwords.last() + "\n"@
    }
}

/// What the console shows for `passwords`: a count, then one numbered line
/// per password.
pub open spec fn console_report(passwords: Seq<Seq<char>>) -> Seq<char> {
    "Generated "@ + decimal(passwords.len()) + " passwords:\n"@ + numbered_lines(passwords)
}

/// What an output file holds for `passwords`: one per line.
pub open spec fn file_lines(passwords: Seq<Seq<char>>) -> Seq<char>
    decreases passwords.len(),
{
    if passwords.len() == 0 {
        Seq::<char>::empty()
    } else {
        file_lines(passwords.drop_last()) + passwords.last() + "\n"@
    }
}

/// The report's lines are numbered 1, 2, ..., n in order: the lines for the
/// first `k` passwords begin the lines for all of them, and the line after
/// them is `[k + 1] ` followed by the `k + 1`-th password.
pub proof fn lemma_lines_numbered_in_order(passwords: Seq<Seq<char>>, k: int)
    requires
        0 <= k < passwords.len(),
    ensures
        numbered_lines(passwords.take(k + 1)) == numbered_lines(passwords.take(k)) + "["@
            + decimal((k + 1) as nat) + "] "@ + passwords[k] + "\n"@,
        numbered_lines(passwords.take(k + 1)).len() <= numbered_lines(passwords).len(),
        numbered_lines(passwords).take(numbered_lines(passwords.take(k + 1)).len() as int)
            == numbered_lines(passwords.take(k + 1)),
    decreases passwords.len(),
{
    assert(passwords.take(k + 1).drop_last() =~= passwords.take(k));
    if k + 1 < passwords.len() {
        let shorter = passwords.drop_last();
        lemma_lines_numbered_in_order(shorter, k);
        assert(shorter.take(k + 1) =~= passwords.take(k + 1));
        let whole = numbered_lines(passwords);
        let front = numbered_lines(shorter);
        let part = numbered_lines(passwords.take(k + 1));
        assert(whole.take(front.len() as int) =~= front);
        assert(whole.take(part.len() as int) =~= front.take(part.len() as int));
    } else {
        assert(passwords.take(k + 1) =~= passwords);
        assert(numbered_lines(passwords).take(numbered_lines(passwords).len() as int)
            =~= numbered_lines(passwords));
    }
}

/// The file holds the passwords one per line, in order: the lines for the
/// first `k` passwords begin the file, followed by the `k + 1`-th password
/// and a newline.
pub proof fn lemma_file_lines_in_order(passwords: Seq<Seq<char>>, k: int)
    requires
        0 <= k < passwords.len(),
    ensures
        file_lines(passwords.take(k + 1)) == file_lines(passwords.take(k)) + passwords[k]
            + "\n"@,
        file_lines(passwords.take(k + 1)).len() <= file_lines(passwords).len(),
        file_lines(passwords).take(file_lines(passwords.take(k + 1)).len() as int) == file_lines(
            passwords.take(k + 1),
        ),
    decreases passwords.len(),
{
    assert(passwords.take(k + 1).drop_last() =~= passwords.take(k));
    if k + 1 < passwords.len() {
        let shorter = passwords.drop_last();
        lemma_file_lines_in_order(shorter, k);
        assert(shorter.take(k + 1) =~= passwords.take(k + 1));
        let whole = file_lines(passwords);
        let front = file_lines(shorter);
        let part = file_lines(passwords.take(k + 1));
        assert(whole.take(front.len() as int) =~= front);
        assert(whole.take(part.len() as int) =~= front.take(part.len() as int));
    } else {
        assert(passwords.take(k + 1) =~= passwords);
        assert(file_lines(passwords).take(file_lines(passwords).len() as int) =~= file_lines(
            passwords,
        ));
    }
}

/// The texts of a list of strings.
pub open spec fn texts(v: Seq<String>) -> Seq<Seq<char>> {
    v.map_values(|s: String| s@)
}

/// The console report for `passwords`.
pub fn passwd_console_report(passwords: &Vec<String>) -> (report: String)
    ensures
        report@ == console_report(texts(passwords@)),
{
    let n = passwords.len();
    let mut lines = String::new();
    let mut i: usize = 0;
    while i < n
        invariant
            n == passwords@.len(),
            i <= n,
            lines@ == numbered_lines(texts(passwords@).take(i as int)),
        decreases n - i,
    {
        append_str(&mut lines, "[");
        let number = decimal_string((i + 1) as u64);
        append_str(&mut lines, number.as_str());
        append_str(&mut lines, "] ");
        append_str(&mut lines, passwords[i].as_str());
        append_str(&mut lines, "\n");
        proof {
            let t = texts(passwords@).take(i + 1);
            assert(t.drop_last() =~= texts(passwords@).take(i as int));
            assert(t.last() == passwords@[i as int]@);
            assert(lines@ =~= numbered_lines(t));
        }
        i = i + 1;
    }
    assert(texts(passwords@).take(n as int) =~= texts(passwords@));
    let mut report = String::from_str("Generated ");
    let count = decimal_string(n as u64);
    append_str(&mut report, count.as_str());
    append_str(&mut report, " passwords:\n");
    append_str(&mut report, lines.as_str());
    report
}

/// The text of an output file for `passwords`.
pub fn passwd_file_text(passwords: &Vec<String>) -> (text: String)
    ensures
        text@ == file_lines(texts(passwords@)),
{
    let n = passwords.len();
    let mut text = String::new();
    let mut i: usize = 0;
    while i < n
        invariant
            n == passwords@.len(),
            i <= n,
            text@ == file_lines(texts(passwords@).take(i as int)),
        decreases n - i,
    {
        append_str(&mut text, passwords[i].as_str());
        append_str(&mut text, "\n");
        proof {
            let t = texts(passwords@).take(i + 1);
            assert(t.drop_last() =~= texts(passwords@).take(i as int));
            assert(t.last() == passwords@[i as int]@);
            assert(text@ =~= file_lines(t));
        }
        i = i + 1;
    }
    assert(texts(passwords@).take(n as int) =~= texts(passwords@));
    text
}

} // verus!
