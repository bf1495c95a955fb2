use vstd::prelude::*;

use crate::protocol::codec::{copy_range, push_char};

verus! {

/// The lower-case hexadecimal digit for `n`, below 16.
pub open spec fn hex_digit(n: int) -> char {
    if n < 10 {
        (48 + n) as char
    } else {
        (87 + n) as char
    }
}

/// A byte as two hexadecimal digits.
pub open spec fn hex_byte(b: u8) -> Seq<char> {
    seq![hex_digit(b as int / 16), hex_digit(b as int % 16)]
}

/// The bytes `bs` as hexadecimal pairs separated by single spaces.
pub open spec fn hex_join(bs: Seq<u8>) -> Seq<char>
    decreases bs.len(),
{
    if bs.len() == 0 {
        Seq::empty()
    } else if bs.len() == 1 {
        hex_byte(bs[0])
    } else {
        hex_join(bs.drop_last()) + seq![' '] + hex_byte(bs.last())
    }
}

/// How a byte shows in the text column: printable ASCII as itself, any
/// other byte as a dot.
pub open spec fn shown(b: u8) -> char {
    if 32 <= b <= 126 {
        b as char
    } else {
        '.'
    }
}

/// The text column for a line of at most 16 bytes, filled up with dots to
/// 16 characters.
pub open spec fn ascii_column(bs: Seq<u8>) -> Seq<char> {
    bs.map_values(|b: u8| shown(b)) + Seq::new((16 - bs.len()) as nat, |i: int| '.')
}

/// The hexadecimal digits of `n`, without leading zeros.
pub open spec fn hex_number(n: nat) -> Seq<char>
    decreases n,
{
    if n < 16 {
        seq![hex_digit(n as int)]
    } else {
        hex_number(n / 16).push(hex_digit((n % 16) as int))
    }
}

/// The offset `n` in hexadecimal, filled up with leading zeros to eight
/// digits.
pub open spec fn address(n: nat) -> Seq<char> {
    let d = hex_number(n);
    if d.len() < 8 {
        Seq::new((8 - d.len()) as nat, |i: int| '0') + d
    } else {
        d
    }
}

/// The `i`-th run of 16 bytes of `data`, the last one shorter.
pub open spec fn chunk(data: Seq<u8>, i: int) -> Seq<u8> {
    let end = if 16 * i + 16 <= data.len() {
        16 * i + 16
    } else {
        data.len() as int
    };
    data.subrange(16 * i, end)
}

/// How many runs of 16 bytes `data` splits into.
pub open spec fn chunk_count(data: Seq<u8>) -> nat {
    ((data.len() + 15) / 16) as nat
}

/// The cells of the dump of `data`: for each run of 16 bytes, its offset,
/// its bytes in hexadecimal, and its text.
pub open spec fn pcap_rows(data: Seq<u8>) -> Seq<Seq<Seq<char>>> {
    Seq::new(
        chunk_count(data),
        |i: int| seq![address((16 * i) as nat), hex_join(chunk(data, i)), ascii_column(chunk(data, i))],
    )
}

/// The values of a list of table rows.
pub open spec fn rows_view(rows: Seq<Vec<String>>) -> Seq<Seq<Seq<char>>> {
    rows.map_values(|r: Vec<String>| r@.map_values(|s: String| s@))
}

/// The text that `tabled` draws for the cells `rows`, with no header row and
/// with blank borders.
pub uninterp spec fn blank_table(rows: Seq<Seq<Seq<char>>>) -> Seq<char>;

/// Draws the cells `rows` as a table with blank borders. Calls
/// `tabled::builder::Builder::from`, `Builder::build`, `Style::blank` and
/// `Table::to_string`; the text drawn is named, not stated.
#[verifier::external_body]
fn draw_blank_table(rows: Vec<Vec<String>>) -> (s: String)
    ensures
        s@ == blank_table(rows_view(rows@)),
{
    let mut table = tabled::builder::Builder::from(rows).build();
    table.with(tabled::settings::Style::blank());
    table.to_string()
}

/// The hexadecimal digit for `n`.
fn hex_digit_char(n: u8) -> (c: char)
    requires
        n < 16,
    ensures
        c == hex_digit(n as int),
{
    if n < 10 {
        (48 + n) as char
    } else {
        (87 + n) as char
    }
}

/// Appends the hexadecimal digits of `n` to `ds`.
fn push_hex_digits(ds: &mut Vec<char>, n: usize)
    ensures
        final(ds)@ == old(ds)@ + hex_number(n as nat),
    decreases n,
{
    if n >= 16 {
        push_hex_digits(ds, n / 16);
    }
    let ghost before = ds@;
    ds.push(hex_digit_char((n % 16) as u8));
    proof {
        if n >= 16 {
            assert(hex_number(n as nat) == hex_number((n / 16) as nat).push(hex_digit((n % 16) as int)));
        }
    }
    assert(ds@ =~= old(ds)@ + hex_number(n as nat));
}

/// The offset `n` in hexadecimal, at least eight digits long.
pub fn hex_address(n: usize) -> (s: String)
    ensures
        s@ == address(n as nat),
{
    let mut ds: Vec<char> = Vec::new();
    push_hex_digits(&mut ds, n);
    assert(ds@ =~= hex_number(n as nat));
    let mut s = String::new();
    let mut z: usize = ds.len();
    while z < 8
        invariant
            ds@.len() <= z <= 8 || (z == ds@.len() && z >= 8),
            s@ == Seq::new((z - ds@.len()) as nat, |i: int| '0'),
        decreases 8 - z,
    {
        push_char(&mut s, '0');
        assert(s@ =~= Seq::new((z + 1 - ds@.len()) as nat, |i: int| '0'));
        z = z + 1;
    }
    let ghost zeros = s@;
    let mut k: usize = 0;
    while k < ds.len()
        invariant
            k <= ds@.len(),
            s@ == zeros + ds@.take(k as int),
        decreases ds@.len() - k,
    {
        push_char(&mut s, ds[k]);
        assert(s@ =~= zeros + ds@.take(k + 1));
        k = k + 1;
    }
    assert(ds@.take(ds@.len() as int) =~= ds@);
    if ds.len() >= 8 {
        assert(zeros =~= Seq::<char>::empty());
        assert(s@ =~= ds@);
    }
    s
}

/// One line of a packet dump: where it starts, its bytes in hexadecimal, and
/// its text.
pub struct PCapLine {
    pub address: String,
    pub hex: String,
    pub ascii: String,
}

impl PCapLine {
    /// The line for the bytes `hex`, at most 16 of them, at `address`.
    pub fn new(address: String, hex: Vec<u8>) -> (l: PCapLine)
        requires
            hex@.len() <= 16,
        ensures
            l.address@ == address@,
            l.hex@ == hex_join(hex@),
            l.ascii@ == ascii_column(hex@),
    {
        let mut hex_str = String::new();
        let mut ascii_str = String::new();
        let mut k: usize = 0;
        while k < hex.len()
            invariant
                k <= hex@.len() <= 16,
                hex_str@ == hex_join(hex@.take(k as int)),
                ascii_str@ == hex@.take(k as int).map_values(|b: u8| shown(b)),
            decreases hex@.len() - k,
        {
            let b = hex[k];
            assert(hex@.take(k + 1).drop_last() =~= hex@.take(k as int));
            assert(hex@.take(k + 1).last() == b);
            if k > 0 {
                push_char(&mut hex_str, ' ');
            }
            push_char(&mut hex_str, hex_digit_char(b / 16));
            push_char(&mut hex_str, hex_digit_char(b % 16));
            assert(k == 0 ==> hex@.take(k + 1) =~= seq![b]);
            let c = if 32 <= b && b <= 126 {
                b as char
            } else {
                '.'
            };
            push_char(&mut ascii_str, c);
            assert(hex@.take(k + 1).map_values(|b: u8| shown(b)) =~= hex@.take(k as int).map_values(
                |b: u8| shown(b),
            ).push(shown(b)));
            k = k + 1;
        }
        assert(hex@.take(hex@.len() as int) =~= hex@);
        let ghost shown_part = ascii_str@;
        let mut f: usize = hex.len();
        while f < 16
            invariant
                hex@.len() <= f <= 16,
                ascii_str@ == shown_part + Seq::new((f - hex@.len()) as nat, |i: int| '.'),
            decreases 16 - f,
        {
            push_char(&mut ascii_str, '.');
            assert(ascii_str@ =~= shown_part + Seq::new((f + 1 - hex@.len()) as nat, |i: int| '.'));
            f = f + 1;
        }
        PCapLine { address, hex: hex_str, ascii: ascii_str }
    }
}

/// A dump of packet bytes, sixteen to a line.
pub struct PCap {}

impl PCap {
    /// The cells of the dump of `data`, one row of three for each run of 16
    /// bytes.
    pub fn rows(data: &Vec<u8>) -> (rows: Vec<Vec<String>>)
        ensures
            rows_view(rows@) == pcap_rows(data@),
    {
        let mut rows: Vec<Vec<String>> = Vec::new();
        let count: usize = data.len() / 16 + if data.len() % 16 != 0 {
            1
        } else {
            0
        };
        assert(count == chunk_count(data@));
        let mut i: usize = 0;
        while i < count
            invariant
                i <= count,
                count == chunk_count(data@),
                rows_view(rows@) == pcap_rows(data@).take(i as int),
            decreases count - i,
        {
            let start = 16 * i;
            let end = if data.len() - start >= 16 {
                start + 16
            } else {
                data.len()
            };
            let bytes = copy_range(data.as_slice(), start, end);
            assert(bytes@ == chunk(data@, i as int));
            let line = PCapLine::new(hex_address(start), bytes);
            let mut row: Vec<String> = Vec::new();
            row.push(line.address);
            row.push(line.hex);
            row.push(line.ascii);
            let ghost before = rows@;
            rows.push(row);
            assert(rows_view(rows@) =~= pcap_rows(data@).take(i + 1)) by {
                assert(rows_view(rows@) =~= rows_view(before).push(row@.map_values(|s: String| s@)));
                assert(row@.map_values(|s: String| s@) =~= pcap_rows(data@)[i as int]);
            }
            i = i + 1;
        }
        assert(pcap_rows(data@).take(i as int) =~= pcap_rows(data@));
        rows
    }

    /// The dump of `data` as a table: offset, hexadecimal bytes and text on
    /// each line.
    pub fn build(data: Vec<u8>) -> (s: String)
        ensures
            s@ == blank_table(pcap_rows(data@)),
    {
        let rows = PCap::rows(&data);
        draw_blank_table(rows)
    }
}

} // verus!
