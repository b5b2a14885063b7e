//! Runes: the `${ ... }` expressions of an easyjs string.
use vstd::prelude::*;
use crate::lexer::model::char_at;
use crate::text::{self, push_char};

verus! {

/// Parse $ in easyjs strings.
pub struct RuneParser {
    /// The found expressions.
    pub expressions: Vec<String>,
    /// Current position of parser in input
    position: usize,
    /// Current read position, one after where the position is at
    read_position: usize,
    /// The current char being read
    current_char: char,
    /// Input chars
    input_chars: Vec<char>,
    /// previos char
    pre_char: char,
}

/// The state of a rune parser.
pub struct RuneView {
    pub chars: Seq<char>,
    pub position: int,
    pub read_position: int,
    pub current: char,
    pub pre: char,
    pub expressions: Seq<Seq<char>>,
}

impl RuneView {
    /// A measure of the input that is left.
    pub open spec fn fuel(self) -> nat {
        let rest: int = self.chars.len() + 1 - self.read_position;
        (if rest > 0 { 2 * rest } else { 0 }) as nat + (if self.current != '\0' { 1nat } else { 0nat })
    }

    /// Consume the current char.
    pub open spec fn read_char(self) -> RuneView {
        RuneView {
            pre: self.current,
            current: char_at(self.chars, self.read_position),
            position: self.read_position,
            read_position: self.read_position + 1,
            ..self
        }
    }

    /// The next character, or `'\0'` past the end.
    pub open spec fn peek(self) -> char {
        char_at(self.chars, self.read_position)
    }

    /// The text of a rune with `braces` braces open; braces after `\` do not count.
    pub open spec fn rune_loop(self, braces: int, rune: Seq<char>) -> (Seq<char>, RuneView)
        decreases self.fuel(),
    {
        if self.current != '\0' {
            let b1 = if self.current == '{' && self.pre != '\\' {
                braces + 1
            } else {
                braces
            };
            if self.current == '}' && self.pre != '\\' && b1 - 1 == 0 {
                (rune, self.read_char())
            } else {
                let b2 = if self.current == '}' && self.pre != '\\' {
                    b1 - 1
                } else {
                    b1
                };
                self.read_char().rune_loop(b2, rune.push(self.current))
            }
        } else {
            (rune, self)
        }
    }

    /// Read a rune whose `{` is current, and record it.
    pub open spec fn read_rune(self) -> RuneView {
        let (rune, s) = self.read_char().rune_loop(1, Seq::empty());
        RuneView { expressions: s.expressions.push(rune), ..s }
    }

    /// Parse the rest of the string, recording each `${ ... }` that no `\` escapes.
    pub open spec fn parse(self) -> RuneView
        decreases self.fuel(),
    {
        if self.current != '\0' {
            let s2 = if self.current == '$' && self.pre != '\\' && self.peek() == '{' {
                self.read_char().read_rune()
            } else {
                self.read_char()
            };
            if s2.fuel() < self.fuel() {
                s2.parse()
            } else {
                s2
            }
        } else {
            self
        }
    }
}

/// The expressions found in an easyjs string.
pub open spec fn spec_runes(input: Seq<char>) -> Seq<Seq<char>> {
    let s0 = RuneView {
        chars: input,
        position: 0,
        read_position: 0,
        current: ' ',
        pre: ' ',
        expressions: Seq::empty(),
    };
    s0.read_char().parse().expressions
}

impl RuneParser {
    /// The state of the parser.
    pub closed spec fn view_of(&self) -> RuneView {
        RuneView {
            chars: self.input_chars@,
            position: self.position as int,
            read_position: self.read_position as int,
            current: self.current_char,
            pre: self.pre_char,
            expressions: self.expressions@.map_values(|e: String| e@),
        }
    }

    /// Well-formed state.
    pub closed spec fn wf(&self) -> bool {
        &&& self.input_chars@.len() < 0x7FFF_FF00
        &&& self.read_position <= self.input_chars@.len() + 4
        &&& self.current_char == char_at(self.input_chars@, self.position as int)
        &&& self.read_position == self.position + 1
    }

    /// Parse the expressions of an easyjs string. The brace count is an `i32`, as the
    /// number of open braces is; the bound on the input keeps it from overflowing.
    pub fn new(input: String) -> (rp: RuneParser)
        requires
            input@.len() < 0x7FFF_FF00,
        ensures
            rp.view_of().expressions == spec_runes(input@),
            rp.wf(),
            rp.view_of().current == '\0',
    {
        let mut rp = RuneParser {
            expressions: vec![],
            position: 0,
            read_position: 0,
            current_char: ' ',
            input_chars: text::chars_of(input.as_str()),
            pre_char: ' ',
        };
        assert(rp.expressions@.map_values(|e: String| e@) =~= Seq::<Seq<char>>::empty());
        rp.read_char();
        rp.parse();
        rp
    }

    /// Get next char without changing state.
    fn peek_char(&self) -> (r: char)
        ensures
            r == self.view_of().peek(),
    {
        if self.read_position >= self.input_chars.len() {
            '\0'
        } else {
            self.input_chars[self.read_position]
        }
    }

    /// Consume the current char.
    fn read_char(&mut self)
        requires
            old(self).read_position <= old(self).input_chars@.len() + 3,
            old(self).input_chars@.len() < 0x7FFF_FF00,
        ensures
            final(self).view_of() == old(self).view_of().read_char(),
            final(self).expressions@ == old(self).expressions@,
            final(self).input_chars@ == old(self).input_chars@,
            final(self).read_position == old(self).read_position + 1,
            final(self).read_position == final(self).position + 1,
            final(self).current_char == char_at(final(self).input_chars@, final(self).position as int),
    {
        self.pre_char = self.current_char;
        if self.read_position >= self.input_chars.len() {
            self.current_char = '\0';
        } else {
            self.current_char = self.input_chars[self.read_position];
        }
        self.position = self.read_position;
        self.read_position = self.read_position + 1;
    }

    /// Read a rune. We don't read internal runes. that is handled seperately.
    fn read_rune(&mut self)
        requires
            old(self).wf(),
            old(self).read_position <= old(self).input_chars@.len(),
        ensures
            final(self).view_of() == old(self).view_of().read_rune(),
            final(self).wf(),
            final(self).read_position <= final(self).input_chars@.len() + 2,
            final(self).input_chars@ == old(self).input_chars@,
            final(self).view_of().fuel() < old(self).view_of().fuel(),
    {
        let ghost start = self.view_of();
        // consume {
        self.read_char();
        let mut rune: String = String::new();
        let mut brace_count: i32 = 1;
        let ghost target = self.view_of().rune_loop(1, Seq::empty());
        assert(rune@ =~= Seq::<char>::empty());
        while self.current_char != '\0'
            invariant_except_break
                self.view_of().rune_loop(brace_count as int, rune@) == target,
                1 <= brace_count <= self.position + 1,
            invariant
                self.wf(),
                self.input_chars@ == start.chars,
                self.read_position <= self.input_chars@.len() + 2,
                self.view_of().fuel() < start.fuel(),
                self.expressions@ == old(self).expressions@,
            ensures
                (rune@, self.view_of()) == target,
            decreases self.view_of().fuel(),
        {
            if self.current_char == '{' && self.pre_char != '\\' {
                brace_count = brace_count + 1;
            }
            if self.current_char == '}' && self.pre_char != '\\' {
                brace_count = brace_count - 1;
                if brace_count == 0 {
                    // consume }
                    self.read_char();
                    break;
                }
            }
            // add char to rune
            push_char(&mut rune, self.current_char);
            self.read_char();
        }
        // Add rune to expressions
        let ghost before = self.expressions@;
        self.expressions.push(rune);
        assert(self.expressions@.map_values(|e: String| e@) =~= before.map_values(|e: String| e@).push(rune@));
    }

    /// Parse the runed string.
    pub fn parse(&mut self)
        requires
            old(self).wf(),
        ensures
            final(self).view_of() == old(self).view_of().parse(),
            final(self).wf(),
            final(self).view_of().current == '\0',
    {
        let ghost target = self.view_of().parse();
        while self.current_char != '\0'
            invariant
                self.wf(),
                self.view_of().parse() == target,
            decreases self.view_of().fuel(),
        {
            let ghost before = self.view_of();
            if self.current_char == '$' && self.pre_char != '\\' && self.peek_char() == '{' {
                // consume $
                self.read_char();
                // read the whole rune; the character after its `}` is now current
                self.read_rune();
            } else {
                self.read_char();
            }
        }
    }

    /// The expressions found.
    pub fn get_expressions(&self) -> (r: &Vec<String>)
        ensures
            r@.map_values(|e: String| e@) == self.view_of().expressions,
    {
        &self.expressions
    }
}

/// Once the whole string has been read, parsing it again finds nothing more.
pub proof fn lemma_parse_at_end(s: RuneView)
    requires
        s.current == '\0',
    ensures
        s.parse() == s,
{
}

proof fn lemma_parse_without_dollar(s: RuneView)
    requires
        !s.chars.contains('$'),
        s.current != '$',
    ensures
        s.parse().expressions == s.expressions,
    decreases s.fuel(),
{
    if s.current != '\0' {
        let s2 = s.read_char();
        if 0 <= s.read_position < s.chars.len() {
            assert(s.chars[s.read_position] != '$');
        }
        if s2.fuel() < s.fuel() {
            lemma_parse_without_dollar(s2);
        }
    }
}

/// A string without `$` holds no expression.
pub proof fn lemma_no_runes_without_dollar(input: Seq<char>)
    requires
        !input.contains('$'),
    ensures
        spec_runes(input) == Seq::<Seq<char>>::empty(),
{
    let s0 = RuneView {
        chars: input,
        position: 0,
        read_position: 0,
        current: ' ',
        pre: ' ',
        expressions: Seq::empty(),
    };
    if input.len() > 0 {
        assert(input[0] != '$');
    }
    lemma_parse_without_dollar(s0.read_char());
}

/// Characters that may stand in a rune without changing how it is read.
pub open spec fn plain_rune_char(c: char) -> bool {
    c != '{' && c != '}' && c != '\\' && c != '\0'
}

proof fn lemma_rune_loop_plain(s: RuneView, x: Seq<char>, j: int)
    requires
        s.chars == seq!['$', '{'] + x + seq!['}'],
        0 <= j <= x.len(),
        s.position == 2 + j,
        s.read_position == 3 + j,
        s.current == char_at(s.chars, 2 + j),
        s.pre != '\\',
        forall|i: int| 0 <= i < x.len() ==> plain_rune_char(#[trigger] x[i]),
    ensures
        s.rune_loop(1, x.take(j)).0 == x,
        s.rune_loop(1, x.take(j)).1.current == '\0',
        s.rune_loop(1, x.take(j)).1.expressions == s.expressions,
    decreases x.len() - j,
{
    if j < x.len() {
        assert(s.chars[2 + j] == x[j]);
        assert(plain_rune_char(x[j]));
        assert(x.take(j).push(x[j]) =~= x.take(j + 1));
        lemma_rune_loop_plain(s.read_char(), x, j + 1);
    } else {
        assert(s.chars[2 + j] == '}');
        assert(x.take(j) =~= x);
    }
}

/// A string that is one `${...}` with plain characters inside holds exactly that
/// expression.
pub proof fn lemma_single_rune(x: Seq<char>)
    requires
        forall|i: int| 0 <= i < x.len() ==> plain_rune_char(#[trigger] x[i]),
    ensures
        spec_runes(seq!['$', '{'] + x + seq!['}']) == seq![x],
{
    let c = seq!['$', '{'] + x + seq!['}'];
    let s0 = RuneView {
        chars: c,
        position: 0,
        read_position: 0,
        current: ' ',
        pre: ' ',
        expressions: Seq::empty(),
    };
    let s1 = s0.read_char();
    assert(c[0] == '$' && c[1] == '{');
    let s2 = s1.read_char();
    let s3 = s2.read_char();
    lemma_rune_loop_plain(s3, x, 0);
    assert(x.take(0) =~= Seq::<char>::empty());
    assert(s1.current == '$' && s1.pre != '\\' && s1.peek() == '{');
    let r = s2.read_rune();
    assert(r.current == '\0');
    assert(r.expressions =~= seq![x]);
    assert(r.parse() == r);
    assert(s1.parse().expressions == seq![x]);
}

} // verus!
