//! The names of the worker threads.

use vstd::prelude::*;

verus! {

/// The character that stands for the digit `d`.
pub open spec fn digit(d: nat) -> char {
    ('0' as int + d) as char
}

/// `n` in decimal, without leading zeros.
pub open spec fn decimal(n: nat) -> Seq<char>
    decreases n,
{
    if n < 10 {
        seq![digit(n)]
    } else {
        decimal(n / 10).push(digit(n % 10))
    }
}

/// The name of the worker with the given index: the prefix, followed by its number, counted
/// from 1.
pub open spec fn thread_name_of(prefix: Seq<char>, index: int) -> Seq<char> {
    prefix + decimal((index + 1) as nat)
}

/// The digit `d` as a string.
fn digit_str(d: usize) -> (s: &'static str)
    requires
        d < 10,
    ensures
        s@ == seq![digit(d as nat)],
{
    proof {
        reveal_strlit("0");
        reveal_strlit("1");
        reveal_strlit("2");
        reveal_strlit("3");
        reveal_strlit("4");
        reveal_strlit("5");
        reveal_strlit("6");
        reveal_strlit("7");
        reveal_strlit("8");
        reveal_strlit("9");
    }
    match d {
        0 => "0",
        1 => "1",
        2 => "2",
        3 => "3",
        4 => "4",
        5 => "5",
        6 => "6",
        7 => "7",
        8 => "8",
        _ => "9",
    }
}

/// Appends `n` in decimal to `text`.
fn append_decimal(text: &mut String, n: usize)
    ensures
        final(text)@ == old(text)@ + decimal(n as nat),
    decreases n,
{
    if n >= 10 {
        append_decimal(text, n / 10);
    }
    text.append(digit_str(n % 10));
}

/// The name of the worker thread with the given index, or `None` for the system's own naming
/// scheme where no prefix is set. With the prefix `my-pool-` the first thread is `my-pool-1`.
pub fn thread_name(prefix: &Option<String>, index: usize) -> (name: Option<String>)
    requires
        index < usize::MAX,
    ensures
        match prefix {
            Some(p) => name is Some && name->0@ == thread_name_of(p@, index as int),
            None => name is None,
        },
{
    match prefix {
        Some(p) => {
            let mut name = p.clone();
            append_decimal(&mut name, index + 1);
            Some(name)
        },
        None => None,
    }
}

/// A number can be read back from its decimal form.
proof fn lemma_decimal_injective(a: nat, b: nat)
    requires
        decimal(a) == decimal(b),
    ensures
        a == b,
    decreases a,
{
    let s = decimal(a);
    let t = decimal(b);
    assert(s.last() == digit(a % 10));
    assert(t.last() == digit(b % 10));
    if a >= 10 && b >= 10 {
        assert(s.drop_last() == decimal(a / 10));
        assert(t.drop_last() == decimal(b / 10));
        lemma_decimal_injective(a / 10, b / 10);
    } else if a >= 10 {
        assert(decimal(a / 10).len() > 0);
    } else if b >= 10 {
        assert(decimal(b / 10).len() > 0);
    }
}

/// No two workers of a pool have the same name.
pub proof fn law_names_differ(prefix: Seq<char>, a: int, b: int)
    requires
        0 <= a,
        0 <= b,
        a != b,
    ensures
        thread_name_of(prefix, a) != thread_name_of(prefix, b),
{
    let p = prefix.len() as int;
    let s = thread_name_of(prefix, a);
    let t = thread_name_of(prefix, b);
    if s == t {
        assert(s.skip(p) == decimal((a + 1) as nat));
        assert(t.skip(p) == decimal((b + 1) as nat));
        lemma_decimal_injective((a + 1) as nat, (b + 1) as nat);
    }
}

/// Reading a decimal form by place value gives the number back, and the form has no leading zero.
proof fn lemma_decimal_reads_back(n: nat, read: spec_fn(int, char) -> int)
    requires
        forall|acc: int, c: char| #[trigger] read(acc, c) == 10 * acc + (c as int - '0' as int),
    ensures
        decimal(n).len() > 0,
        forall|i: int| 0 <= i < decimal(n).len() ==> '0' <= #[trigger] decimal(n)[i] <= '9',
        n > 0 ==> decimal(n)[0] != '0',
        decimal(n).fold_left(0int, read) == n,
    decreases n,
{
    if n < 10 {
        assert(decimal(n).drop_last() == Seq::<char>::empty());
        assert(decimal(n).drop_last().fold_left(0int, read) == 0);
    } else {
        lemma_decimal_reads_back(n / 10, read);
        assert(decimal(n).drop_last() == decimal(n / 10));
    }
}

/// The number of a thread, counted from 1, can be read off behind the prefix by place value.
pub proof fn law_names_read_back(prefix: Seq<char>, index: int)
    ensures
        ({
            let digits = thread_name_of(prefix, index).skip(prefix.len() as int);
            &&& thread_name_of(prefix, index) == prefix + digits
            &&& index >= 0 ==> digits.len() > 0
            &&& index >= 0 ==> digits[0] != '0'
            &&& index >= 0 ==> forall|i: int|
                0 <= i < digits.len() ==> '0' <= #[trigger] digits[i] <= '9'
            &&& index >= 0 ==> digits.fold_left(
                0int,
                |acc: int, c: char| 10 * acc + (c as int - '0' as int),
            ) == index + 1
        }),
{
    let read = |acc: int, c: char| 10 * acc + (c as int - '0' as int);
    let digits = thread_name_of(prefix, index).skip(prefix.len() as int);
    lemma_decimal_reads_back((index + 1) as nat, read);
    assert(digits == decimal((index + 1) as nat));
    assert(thread_name_of(prefix, index) == prefix + digits);
}

/// The name of a thread is the prefix, followed by decimal digits without a leading zero, which read
/// by place value give the number of the thread, counted from 1. Without a prefix there is no name.
pub proof fn law_name_tells_the_number(
    prefix: Option<String>,
    index: usize,
    name: Option<String>,
)
    requires
        index < usize::MAX,
        call_ensures(thread_name, (&prefix, index), name),
    ensures
        prefix is None ==> name is None,
        prefix matches Some(p) ==> name is Some && {
            let digits = name->0@.skip(p@.len() as int);
            &&& name->0@ == p@ + digits
            &&& digits.len() > 0
            &&& digits[0] != '0'
            &&& forall|i: int| 0 <= i < digits.len() ==> '0' <= #[trigger] digits[i] <= '9'
            &&& digits.fold_left(
                0int,
                |acc: int, c: char| 10 * acc + (c as int - '0' as int),
            ) == index + 1
        },
{
    if let Some(p) = prefix {
        let read = |acc: int, c: char| 10 * acc + (c as int - '0' as int);
        let digits = name->0@.skip(p@.len() as int);
        lemma_decimal_reads_back((index + 1) as nat, read);
        assert(digits == decimal((index + 1) as nat));
    }
}

} // verus!
