use vstd::prelude::*;

verus! {

/// The environment variable through which a successor inherits the listener.
pub open spec fn listener_fd_key() -> Seq<char> {
    "LISTENER_FD"@
}

/// A child signals its parent to start the handoff when it was spawned by a
/// live predecessor (not re-parented to init).
pub fn should_signal_parent(ppid: i32, is_child: bool) -> (r: bool)
    ensures
        r == (ppid > 1 && is_child),
{
    ppid > 1 && is_child
}

pub open spec fn is_digit(b: u8) -> bool {
    48 <= b <= 57
}

pub open spec fn all_digits(s: Seq<u8>) -> bool {
    forall|i: int| 0 <= i < s.len() ==> is_digit(s[i])
}

/// The number that a run of decimal digits writes.
pub open spec fn decimal_value(s: Seq<u8>) -> nat
    decreases s.len(),
{
    if s.len() == 0 {
        0
    } else {
        10 * decimal_value(s.drop_last()) + (s.last() - 48) as nat
    }
}

/// A descriptor number as the environment carries it: one or more decimal
/// digits whose value fits a descriptor.
pub open spec fn descriptor_of(s: Seq<u8>) -> Option<i32> {
    if s.len() > 0 && all_digits(s) && decimal_value(s) <= i32::MAX {
        Some(decimal_value(s) as i32)
    } else {
        None
    }
}

proof fn lemma_value_mono(s: Seq<u8>, i: int, j: int)
    requires
        0 <= i <= j <= s.len(),
        all_digits(s),
    ensures
        decimal_value(s.take(i)) <= decimal_value(s.take(j)),
    decreases j - i,
{
    if i < j {
        lemma_value_mono(s, i, j - 1);
        assert(s.take(j).drop_last() =~= s.take(j - 1));
    }
}

/// Reads the inherited listener descriptor from the value of `LISTENER_FD`.
pub fn parse_listener_fd(value: &[u8]) -> (r: Option<i32>)
    ensures
        r == descriptor_of(value@),
{
    let n = value.len();
    if n == 0 {
        return None;
    }
    let mut acc: u64 = 0;
    let mut i: usize = 0;
    while i < n
        invariant
            n == value@.len(),
            i <= n,
            all_digits(value@.take(i as int)),
            acc == decimal_value(value@.take(i as int)),
            acc <= i32::MAX,
        decreases n - i,
    {
        let b = value[i];
        if b < 48 || b > 57 {
            assert(!is_digit(value@[i as int]));
            return None;
        }
        assert(value@.take(i + 1).drop_last() =~= value@.take(i as int));
        acc = acc * 10 + (b - 48) as u64;
        i = i + 1;
        assert(all_digits(value@.take(i as int)));
        if acc > 2147483647 {
            proof {
                if all_digits(value@) {
                    lemma_value_mono(value@, i as int, n as int);
                    assert(value@.take(n as int) =~= value@);
                }
            }
            return None;
        }
    }
    assert(value@.take(n as int) =~= value@);
    Some(acc as i32)
}

pub open spec fn digit_char(d: nat) -> char {
    if d == 0 { '0' } else if d == 1 { '1' } else if d == 2 { '2' } else if d == 3 { '3' }
    else if d == 4 { '4' } else if d == 5 { '5' } else if d == 6 { '6' } else if d == 7 { '7' }
    else if d == 8 { '8' } else { '9' }
}

/// The decimal digits of `n`, most significant first, without leading zeros.
pub open spec fn decimal_chars(n: nat) -> Seq<char>
    decreases n,
{
    if n < 10 {
        seq![digit_char(n)]
    } else {
        decimal_chars(n / 10).push(digit_char(n % 10))
    }
}

/// How a descriptor is written: in decimal, with a minus sign if negative.
pub open spec fn descriptor_chars(fd: int) -> Seq<char> {
    if fd < 0 {
        seq!['-'] + decimal_chars((-fd) as nat)
    } else {
        decimal_chars(fd as nat)
    }
}

fn digit_str(d: u64) -> (r: &'static str)
    requires
        d < 10,
    ensures
        r@ == seq![digit_char(d as nat)],
{
    proof {
        reveal_strlit("0"); reveal_strlit("1"); reveal_strlit("2"); reveal_strlit("3");
        reveal_strlit("4"); reveal_strlit("5"); reveal_strlit("6"); reveal_strlit("7");
        reveal_strlit("8"); reveal_strlit("9");
    }
    if d == 0 { "0" } else if d == 1 { "1" } else if d == 2 { "2" } else if d == 3 { "3" }
    else if d == 4 { "4" } else if d == 5 { "5" } else if d == 6 { "6" } else if d == 7 { "7" }
    else if d == 8 { "8" } else { "9" }
}

fn append_decimal(s: &mut String, n: u64)
    ensures
        final(s)@ == old(s)@ + decimal_chars(n as nat),
    decreases n,
{
    if n >= 10 {
        append_decimal(s, n / 10);
    }
    s.append(digit_str(n % 10));
    if n >= 10 {
        assert(final(s)@ =~= old(s)@ + decimal_chars(n as nat));
    } else {
        assert(final(s)@ =~= old(s)@ + decimal_chars(n as nat));
    }
}

/// Writes a descriptor as the environment carries it.
pub fn descriptor_text(fd: i32) -> (r: String)
    ensures
        r@ == descriptor_chars(fd as int),
{
    let mut s = String::new();
    if fd < 0 {
        proof { reveal_strlit("-"); }
        s.append("-");
        let m: i64 = -(fd as i64);
        append_decimal(&mut s, m as u64);
    } else {
        append_decimal(&mut s, fd as u64);
    }
    assert(s@ =~= descriptor_chars(fd as int));
    s
}

/// The environment as text pairs.
pub open spec fn env_view(v: Seq<(String, String)>) -> Seq<(Seq<char>, Seq<char>)> {
    v.map_values(|p: (String, String)| (p.0@, p.1@))
}

/// The entries whose name is not `key`, in order.
pub open spec fn without_key(v: Seq<(Seq<char>, Seq<char>)>, key: Seq<char>) -> Seq<(Seq<char>, Seq<char>)>
    decreases v.len(),
{
    if v.len() == 0 {
        v
    } else if v.last().0 == key {
        without_key(v.drop_last(), key)
    } else {
        without_key(v.drop_last(), key).push(v.last())
    }
}

/// The environment of the successor: the current one without any
/// `LISTENER_FD`, then `LISTENER_FD` naming the listener's descriptor.
pub fn respawn_env(vars: &Vec<(String, String)>, fd: i32) -> (r: Vec<(String, String)>)
    ensures
        env_view(r@) == without_key(env_view(vars@), listener_fd_key()).push(
            (listener_fd_key(), descriptor_chars(fd as int)),
        ),
{
    proof { reveal_strlit("LISTENER_FD"); }
    let key = String::from_str("LISTENER_FD");
    let mut out: Vec<(String, String)> = Vec::new();
    let mut i: usize = 0;
    while i < vars.len()
        invariant
            i <= vars@.len(),
            key@ == listener_fd_key(),
            env_view(out@) == without_key(env_view(vars@.take(i as int)), listener_fd_key()),
        decreases vars@.len() - i,
    {
        let ghost before = out@;
        assert(env_view(vars@.take(i + 1)).drop_last() =~= env_view(vars@.take(i as int)));
        assert(env_view(vars@.take(i + 1)).last() == (vars@[i as int].0@, vars@[i as int].1@));
        if vars[i].0 != key {
            let k = vars[i].0.clone();
            let v = vars[i].1.clone();
            out.push((k, v));
            assert(env_view(out@) =~= env_view(before).push((vars@[i as int].0@, vars@[i as int].1@)));
        }
        i = i + 1;
    }
    assert(vars@.take(i as int) =~= vars@);
    let ghost before = out@;
    out.push((key, descriptor_text(fd)));
    assert(env_view(out@) =~= env_view(before).push((listener_fd_key(), descriptor_chars(fd as int))));
    out
}

} // verus!
