use vstd::prelude::*;

use crate::logic::map::names_view;
use crate::protocol::codec::push_char;

verus! {

/// A command the server's operator typed: its lower-cased first word and
/// all its words.
pub struct Command {
    pub kind: String,
    pub argv: Vec<String>,
}

/// The value of a `Command`.
pub struct CommandV {
    pub kind: Seq<char>,
    pub argv: Seq<Seq<char>>,
}

impl View for Command {
    type V = CommandV;

    open spec fn view(&self) -> CommandV {
        CommandV { kind: self.kind@, argv: self.argv@.map_values(|s: String| s@) }
    }
}

/// A line the operator typed, read against the command prefix.
pub enum ConsoleLine {
    /// The line does not start with the prefix.
    Ignored,
    /// The line is the prefix and nothing but white space.
    Blank,
    /// The line is a command.
    Command(Command),
}

/// Whether `c` is white space, as `char::is_whitespace` tests it: Unicode's
/// `White_Space` property.
pub open spec fn is_white(c: char) -> bool {
    let u = c as u32;
    ||| 9 <= u <= 13
    ||| u == 32
    ||| u == 0x85
    ||| u == 0xa0
    ||| u == 0x1680
    ||| 0x2000 <= u <= 0x200a
    ||| u == 0x2028
    ||| u == 0x2029
    ||| u == 0x202f
    ||| u == 0x205f
    ||| u == 0x3000
}

/// The words finished so far and the word being read, after reading `s`
/// from the left.
pub open spec fn scan_words(s: Seq<char>) -> (Seq<Seq<char>>, Seq<char>)
    decreases s.len(),
{
    if s.len() == 0 {
        (Seq::empty(), Seq::empty())
    } else {
        let (done, cur) = scan_words(s.drop_last());
        if is_white(s.last()) {
            if cur.len() > 0 {
                (done.push(cur), Seq::empty())
            } else {
                (done, cur)
            }
        } else {
            (done, cur.push(s.last()))
        }
    }
}

/// The words of `s`: its longest runs of characters that are not white
/// space, in order.
pub open spec fn words(s: Seq<char>) -> Seq<Seq<char>> {
    let (done, cur) = scan_words(s);
    if cur.len() > 0 {
        done.push(cur)
    } else {
        done
    }
}

/// A character with ASCII upper case turned to lower case.
pub open spec fn ascii_lower(c: char) -> char {
    if 'A' <= c && c <= 'Z' {
        ((c as u32) + 32) as char
    } else {
        c
    }
}

/// A word with ASCII upper case turned to lower case.
pub open spec fn lower_word(w: Seq<char>) -> Seq<char> {
    w.map_values(|c: char| ascii_lower(c))
}

/// Whether `s` starts with `prefix`.
pub open spec fn starts_with(s: Seq<char>, prefix: Seq<char>) -> bool {
    prefix.len() <= s.len() && s.take(prefix.len() as int) == prefix
}

/// Whether `c` is white space.
pub fn is_white_char(c: char) -> (r: bool)
    ensures
        r == is_white(c),
{
    let u = c as u32;
    (9 <= u && u <= 13) || u == 32 || u == 0x85 || u == 0xa0 || u == 0x1680 || (0x2000 <= u && u
        <= 0x200a) || u == 0x2028 || u == 0x2029 || u == 0x202f || u == 0x205f || u == 0x3000
}

/// The characters of a text.
pub fn chars_of(s: &str) -> (r: Vec<char>)
    ensures
        r@ == s@,
{
    let mut r: Vec<char> = Vec::new();
    for c in it: s.chars()
        invariant
            it.seq() == s@,
            r@ == s@.take(it.index() as int),
    {
        let ghost i = it.index();
        r.push(c);
        assert(r@ =~= s@.take(i + 1));
    }
    assert(s@.take(s@.len() as int) =~= s@);
    r
}

/// A word with ASCII upper case turned to lower case.
pub fn to_lower_word(w: &str) -> (r: String)
    ensures
        r@ == lower_word(w@),
{
    let cs = chars_of(w);
    let mut r = String::new();
    let mut i: usize = 0;
    while i < cs.len()
        invariant
            i <= cs@.len(),
            cs@ == w@,
            r@ == lower_word(w@.take(i as int)),
        decreases cs@.len() - i,
    {
        let c = cs[i];
        let l = if 'A' <= c && c <= 'Z' {
            let b: u8 = (c as u32 + 32) as u8;
            b as char
        } else {
            c
        };
        assert(l == ascii_lower(c));
        push_char(&mut r, l);
        assert(lower_word(w@.take(i + 1)) =~= lower_word(w@.take(i as int)).push(ascii_lower(c)));
        i = i + 1;
    }
    assert(w@.take(cs@.len() as int) =~= w@);
    r
}

/// The words of the characters `cs` from position `from` on.
pub fn split_words(cs: &Vec<char>, from: usize) -> (ws: Vec<String>)
    requires
        from <= cs@.len(),
    ensures
        names_view(ws@) == words(cs@.skip(from as int)),
{
    let ghost rest = cs@.skip(from as int);
    let mut done: Vec<String> = Vec::new();
    let mut cur = String::new();
    let mut in_word = false;
    let mut k: usize = from;
    while k < cs.len()
        invariant
            from <= k <= cs@.len(),
            rest == cs@.skip(from as int),
            in_word == (cur@.len() > 0),
            (names_view(done@), cur@) == scan_words(rest.take(k - from)),
        decreases cs@.len() - k,
    {
        let c = cs[k];
        let ghost t = rest.take(k - from);
        assert(rest.take(k + 1 - from).drop_last() =~= t);
        assert(rest.take(k + 1 - from).last() == c);
        if is_white_char(c) {
            if in_word {
                let ghost before = done@;
                let w = cur;
                cur = String::new();
                in_word = false;
                done.push(w);
                assert(names_view(done@) =~= names_view(before).push(scan_words(t).1));
            }
        } else {
            push_char(&mut cur, c);
            in_word = true;
        }
        k = k + 1;
    }
    assert(rest.take(cs@.len() - from) =~= rest);
    if in_word {
        let ghost before = done@;
        done.push(cur);
        assert(names_view(done@) =~= names_view(before).push(scan_words(rest).1));
    }
    done
}

impl Command {
    /// Reads a line the operator typed: a line that starts with `prefix` is
    /// a command whose words follow the prefix, the first of them, lower
    /// cased, naming it.
    pub fn parse(line: &str, prefix: &str) -> (r: ConsoleLine)
        ensures
            match r {
                ConsoleLine::Ignored => !starts_with(line@, prefix@),
                ConsoleLine::Blank => starts_with(line@, prefix@) && words(
                    line@.skip(prefix@.len() as int),
                ).len() == 0,
                ConsoleLine::Command(c) => {
                    let ws = words(line@.skip(prefix@.len() as int));
                    &&& starts_with(line@, prefix@)
                    &&& ws.len() > 0
                    &&& c@ == CommandV { kind: lower_word(ws[0]), argv: ws }
                },
            },
    {
        let cs = chars_of(line);
        let ps = chars_of(prefix);
        if ps.len() > cs.len() {
            return ConsoleLine::Ignored;
        }
        let mut i: usize = 0;
        while i < ps.len()
            invariant
                i <= ps@.len() <= cs@.len(),
                cs@ == line@,
                ps@ == prefix@,
                forall|j: int| 0 <= j < i ==> cs@[j] == ps@[j],
            decreases ps@.len() - i,
        {
            if cs[i] != ps[i] {
                assert(line@.take(prefix@.len() as int)[i as int] != prefix@[i as int]);
                return ConsoleLine::Ignored;
            }
            i = i + 1;
        }
        assert(line@.take(prefix@.len() as int) =~= prefix@);
        let argv = split_words(&cs, ps.len());
        if argv.len() == 0 {
            return ConsoleLine::Blank;
        }
        let kind = to_lower_word(argv[0].as_str());
        let c = Command { kind, argv };
        assert(c@.argv =~= names_view(c.argv@));
        ConsoleLine::Command(c)
    }
}

} // verus!
