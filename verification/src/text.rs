use vstd::prelude::*;
use vstd::string::*;

verus! {

/// The character of a digit below sixteen, in lower case.
pub open spec fn digit_char(d: nat) -> char {
    if d == 0 {
        '0'
    } else if d == 1 {
        '1'
    } else if d == 2 {
        '2'
    } else if d == 3 {
        '3'
    } else if d == 4 {
        '4'
    } else if d == 5 {
        '5'
    } else if d == 6 {
        '6'
    } else if d == 7 {
        '7'
    } else if d == 8 {
        '8'
    } else if d == 9 {
        '9'
    } else if d == 10 {
        'a'
    } else if d == 11 {
        'b'
    } else if d == 12 {
        'c'
    } else if d == 13 {
        'd'
    } else if d == 14 {
        'e'
    } else {
        'f'
    }
}

/// A number in decimal notation, without leading zeros.
pub open spec fn decimal(n: nat) -> Seq<char>
    decreases n,
{
    if n < 10 {
        seq![digit_char(n)]
    } else {
        decimal(n / 10).push(digit_char(n % 10))
    }
}

/// A byte as two hexadecimal digits in lower case.
pub open spec fn hex_pair(byte: u8) -> Seq<char> {
    seq![digit_char((byte / 16) as nat), digit_char((byte % 16) as nat)]
}

/// The text of the byte at `i` of an address: its two digits, followed by a
/// colon unless it is the last byte.
pub open spec fn mac_piece(mac: Seq<u8>, i: int) -> Seq<char> {
    if i < mac.len() - 1 {
        hex_pair(mac[i]).push(':')
    } else {
        hex_pair(mac[i])
    }
}

/// The text of the first `k` bytes of an address.
pub open spec fn mac_prefix(mac: Seq<u8>, k: int) -> Seq<char>
    decreases k,
{
    if k <= 0 {
        Seq::empty()
    } else {
        mac_prefix(mac, k - 1) + mac_piece(mac, k - 1)
    }
}

/// An address as text: its bytes as pairs of hexadecimal digits, with a
/// colon between neighbors.
pub open spec fn mac_text(mac: Seq<u8>) -> Seq<char> {
    mac_prefix(mac, mac.len() as int)
}

/// The one-character text of a digit below sixteen.
pub fn digit_str(d: u8) -> (s: &'static str)
    requires
        d < 16,
    ensures
        s@ == seq![digit_char(d as nat)],
{
    proof {
        reveal_strlit("0");
        reveal_strlit("1");
        reveal_strlit("2");
        reveal_strlit("3");
        reveal_strlit("4");
        reveal_strlit("5");
        reveal_strlit("6");
        reveal_strlit("7");
        reveal_strlit("8");
        reveal_strlit("9");
        reveal_strlit("a");
        reveal_strlit("b");
        reveal_strlit("c");
        reveal_strlit("d");
        reveal_strlit("e");
        reveal_strlit("f");
    }
    let s = if d == 0 {
        "0"
    } else if d == 1 {
        "1"
    } else if d == 2 {
        "2"
    } else if d == 3 {
        "3"
    } else if d == 4 {
        "4"
    } else if d == 5 {
        "5"
    } else if d == 6 {
        "6"
    } else if d == 7 {
        "7"
    } else if d == 8 {
        "8"
    } else if d == 9 {
        "9"
    } else if d == 10 {
        "a"
    } else if d == 11 {
        "b"
    } else if d == 12 {
        "c"
    } else if d == 13 {
        "d"
    } else if d == 14 {
        "e"
    } else {
        "f"
    };
    assert(s@ =~= seq![digit_char(d as nat)]);
    s
}

/// Writes a number in decimal notation.
pub fn decimal_string(n: u64) -> (s: String)
    ensures
        s@ == decimal(n as nat),
    decreases n,
{
    if n < 10 {
        String::from_str(digit_str(n as u8))
    } else {
        let mut s = decimal_string(n / 10);
        s.append(digit_str((n % 10) as u8));
        assert(s@ =~= decimal(n as nat));
        s
    }
}

/// Writes a hardware address as text, such as `0a:1b:2c`.
pub fn mac_to_string(mac: &[u8]) -> (mac_str: String)
    ensures
        mac_str@ == mac_text(mac@),
{
    let mut mac_str = String::new();
    let n: usize = mac.len();
    let mut i: usize = 0;
    while i < n
        invariant
            i <= n,
            n == mac@.len(),
            mac_str@ == mac_prefix(mac@, i as int),
        decreases n - i,
    {
        let byte: u8 = mac[i];
        mac_str.append(digit_str(byte / 16));
        mac_str.append(digit_str(byte % 16));
        if i < n - 1 {
            proof {
                reveal_strlit(":");
            }
            mac_str.append(":");
        }
        assert(mac_str@ =~= mac_prefix(mac@, i as int) + mac_piece(mac@, i as int));
        i = i + 1;
    }
    mac_str
}

} // verus!
