//! Toylang: a functional toy language in Polish notation that compiles to Rust.
//!
//! The compiler splits the input into lines of characters, then lines of tokens,
//! parses each line into an AST, infers the types that are left open, and writes
//! the Rust code of the whole program.
pub mod ast;
pub mod debug;
pub mod debugger;
pub mod errors;
pub mod example_tests;
pub mod file;
pub mod formatting;
pub mod parse;
pub mod text;

use crate::ast::elements::append::{self, AstState, Outcome};
use crate::ast::Ast;
use crate::file::File;
use crate::parse::{leading_ws, line_safe, trailing_ws};
use crate::text::{is_ascii_text, spec_is_whitespace};
use vstd::prelude::*;

verus! {

pub type Col = usize;

pub type CharPosition = (char, Col);

pub type LinesOfChars = Vec<Vec<CharPosition>>;

pub type Row = usize;

pub type Start = usize;

pub type End = usize;

/// A token's text, its line, and the columns of its first and last characters.
pub type Token = (String, Row, Start, End);

pub type Tokens = Vec<Token>;

pub type LinesOfTokens = Vec<Tokens>;

/// Each compile error's message with the token at which it was found.
pub type ErrorStack = Vec<(String, Token)>;

/// The state of one compilation, from the input file to the output code.
#[derive(Clone, Debug, Default)]
pub struct Compiler {
    pub file: File,
    pub debug: bool,
    pub debug_step: usize,
    pub debug_line: usize,
    pub filepath: String,
    pub outputdir: String,
    pub lines_of_chars: LinesOfChars,
    pub lines_of_tokens: LinesOfTokens,
    pub output: String,
    pub current_line: usize,
    pub current_line_token: usize,
    pub error_stack: ErrorStack,
    pub ast: Ast,
}

impl Compiler {
    /// The AST is well formed.
    pub open spec fn wf(&self) -> bool {
        self.ast.wf()
    }

    /// The current line of tokens has its line of characters, which an error shows.
    pub open spec fn has_chars_line(&self) -> bool {
        self.current_line < self.lines_of_chars@.len()
    }

    /// A step that ends in `o` can record its error: the current line has its characters,
    /// or the step does not fail.
    pub open spec fn can_end_in(&self, o: Outcome) -> bool {
        self.has_chars_line() || o is Done
    }

    /// The two compilers differ at most in their ASTs and error stacks.
    pub open spec fn same_but_ast(&self, other: &Compiler) -> bool {
        &&& self.file == other.file
        &&& self.debug == other.debug
        &&& self.debug_step == other.debug_step
        &&& self.debug_line == other.debug_line
        &&& self.filepath == other.filepath
        &&& self.outputdir == other.outputdir
        &&& self.lines_of_chars == other.lines_of_chars
        &&& self.lines_of_tokens == other.lines_of_tokens
        &&& self.output == other.output
        &&& self.current_line == other.current_line
        &&& self.current_line_token == other.current_line_token
    }

    /// The two compilers have the same input and settings; they may differ in their ASTs,
    /// error stacks and positions.
    pub open spec fn same_input(&self, other: &Compiler) -> bool {
        &&& self.file == other.file
        &&& self.debug == other.debug
        &&& self.debug_step == other.debug_step
        &&& self.debug_line == other.debug_line
        &&& self.filepath == other.filepath
        &&& self.outputdir == other.outputdir
        &&& self.lines_of_chars == other.lines_of_chars
        &&& self.lines_of_tokens == other.lines_of_tokens
        &&& self.output == other.output
    }

    /// The two compilers differ at most in their lines of characters and of tokens.
    pub open spec fn same_but_lines(&self, other: &Compiler) -> bool {
        &&& self.file == other.file
        &&& self.debug == other.debug
        &&& self.debug_step == other.debug_step
        &&& self.debug_line == other.debug_line
        &&& self.filepath == other.filepath
        &&& self.outputdir == other.outputdir
        &&& self.output == other.output
        &&& self.current_line == other.current_line
        &&& self.current_line_token == other.current_line_token
        &&& self.error_stack == other.error_stack
        &&& self.ast == other.ast
    }

    /// Well formed, and the current token lies within the current line.
    pub open spec fn at_token(&self) -> bool {
        &&& self.wf()
        &&& self.current_line < self.lines_of_tokens@.len()
        &&& self.current_line_token < self.lines_of_tokens@[self.current_line as int]@.len()
    }
}


/// The characters from `start` to `end`, each with its position in the file.
pub open spec fn positions(chars: Seq<char>, start: int, end: int) -> Seq<CharPosition> {
    Seq::new((end - start) as nat, |i: int| (chars[start + i], (start + i) as usize))
}

/// The lines of characters of a file, from a line that starts at `from`, scanning at `to`:
/// a line ends at "\r\n", "\r" or "\n" (which it leaves out), at the end of the file (whose
/// last character it keeps), and just after "=>" (which marks the start of a one-line
/// function's body) unless the line is a comment ("//") or Rust code ("##").
pub open spec fn char_lines(chars: Seq<char>, from: int, to: int) -> Seq<Seq<CharPosition>>
    decreases chars.len() - to,
{
    if to >= chars.len() || to < from || from < 0 {
        Seq::empty()
    } else {
        let c = chars[to];
        let has_next = to + 1 < chars.len();
        let d = if has_next { chars[to + 1] } else { ' ' };
        let incr = if has_next && ((c == '\r' && chars[to + 1] == '\n') || (c == '=' && d == '>')) { 2int } else { 1int };
        let eof = to == chars.len() - 1;
        let so_far = chars.subrange(from, to);
        let is_a_comment_line = so_far.len() > 1 && so_far[0] == '/' && so_far[1] == '/';
        let is_a_rustcode_line = so_far.len() > 1 && so_far[0] == '#' && so_far[1] == '#';
        let marker = c == '=' && d == '>' && !is_a_comment_line && !is_a_rustcode_line;
        if c == '\r' || c == '\n' || eof || marker {
            let end = to + (if marker { 2int } else if eof { 1int } else { 0int });
            seq![positions(chars, from, end)] + char_lines(chars, to + incr, to + incr)
        } else {
            char_lines(chars, from, to + incr)
        }
    }
}

/// Lines of characters as plain values.
pub open spec fn lines_view(v: Seq<Vec<CharPosition>>) -> Seq<Seq<CharPosition>> {
    v.map_values(|l: Vec<CharPosition>| l@)
}

/// The tokens of a line's text `chars` (line number `line`), scanning from a token that
/// starts at `from`, at `to`: a token ends at whitespace outside quote marks (not in a
/// comment or Rust code line, and not at the first character), or at the end of the text,
/// and gets its text, its line, and its first and last positions.
pub open spec fn line_tokens(chars: Seq<char>, line: usize, from: int, to: int, inside_quotes: bool, count_quotes: int) -> Seq<(Seq<char>, usize, usize, usize)>
    decreases chars.len() - to,
{
    if to >= chars.len() || to < from || from < 0 {
        Seq::empty()
    } else {
        let c = chars[to];
        let eof = to == chars.len() - 1;
        let (inside, count) = if c == '"' {
            if inside_quotes { (false, count_quotes - 1) } else { (true, count_quotes + 1) }
        } else {
            (inside_quotes, count_quotes)
        };
        let is_comment = chars.len() > 1 && chars[0] == '/' && chars[1] == '/';
        let is_rustcode = chars.len() > 1 && chars[0] == '#' && chars[1] == '#';
        if (spec_is_whitespace(c) && to != 0 && !inside && !is_comment && !is_rustcode) || eof || count == 2 {
            let end = to + (if eof || count == 2 { 1int } else { 0int });
            seq![(chars.subrange(from, end), line, from as usize, (end - 1) as usize)] + line_tokens(chars, line, to + 1, to + 1, false, 0)
        } else {
            line_tokens(chars, line, from, to + 1, inside, count)
        }
    }
}

/// The text of a line of characters with its whitespace stripped at both ends, as
/// `strip_leading_whitespace` and then `strip_trailing_whitespace` leave it.
pub open spec fn stripped(line: Seq<char>) -> Seq<char> {
    let a = line.skip(leading_ws(line) as int);
    a.take(a.len() - trailing_ws(a))
}

/// The characters of a line of characters.
pub open spec fn line_chars(line: Seq<CharPosition>) -> Seq<char> {
    line.map_values(|p: CharPosition| p.0)
}

/// The tokens of line number `i` of the lines of characters.
pub open spec fn tokens_of_line(lines: Seq<Seq<CharPosition>>, i: int) -> Seq<(Seq<char>, usize, usize, usize)> {
    line_tokens(stripped(line_chars(lines[i])), i as usize, 0, 0, false, 0)
}

/// A token as plain values.
pub open spec fn token_view(t: Token) -> (Seq<char>, usize, usize, usize) {
    (t.0@, t.1, t.2, t.3)
}

/// Lines of tokens as plain values.
pub open spec fn token_lines_view(v: Seq<Tokens>) -> Seq<Seq<(Seq<char>, usize, usize, usize)>> {
    v.map_values(|l: Tokens| l@.map_values(|t: Token| token_view(t)))
}

impl Compiler {
    /// Splits the file's contents into lines of characters, added after those already there.
    pub fn set_lines_of_chars(&mut self)
        ensures
            lines_view(final(self).lines_of_chars@) == lines_view(old(self).lines_of_chars@) + char_lines(old(self).file.filecontents@, 0, 0),
            final(self).lines_of_tokens == old(self).lines_of_tokens,
            final(self).file == old(self).file,
            final(self).ast == old(self).ast,
            final(self).error_stack == old(self).error_stack,
            final(self).current_line == old(self).current_line,
            final(self).current_line_token == old(self).current_line_token,
            final(self).debug == old(self).debug,
            final(self).debug_line == old(self).debug_line,
            final(self).debug_step == old(self).debug_step,
            final(self).output == old(self).output,
            final(self).filepath == old(self).filepath,
            final(self).outputdir == old(self).outputdir,
    {
        let char_vec = text::chars_of(&self.file.filecontents);
        let ghost chars = char_vec@;
        let ghost start_lines = lines_view(self.lines_of_chars@);
        let n = char_vec.len();
        let mut index_from: usize = 0;
        let mut index_to: usize = 0;
        while index_to < n
            invariant
                chars == char_vec@,
                n == chars.len(),
                index_from <= index_to <= n + 1,
                lines_view(self.lines_of_chars@) + char_lines(chars, index_from as int, index_to as int)
                    == start_lines + char_lines(chars, 0, 0),
                self.file == old(self).file,
                self.lines_of_tokens == old(self).lines_of_tokens,
                self.ast == old(self).ast,
                self.error_stack == old(self).error_stack,
                self.current_line == old(self).current_line,
                self.current_line_token == old(self).current_line_token,
                self.debug == old(self).debug,
                self.debug_line == old(self).debug_line,
                self.debug_step == old(self).debug_step,
                self.output == old(self).output,
                self.filepath == old(self).filepath,
                self.outputdir == old(self).outputdir,
                start_lines == lines_view(old(self).lines_of_chars@),
                chars == old(self).file.filecontents@,
            decreases n + 1 - index_to,
        {
            let c = char_vec[index_to];
            let has_next = index_to + 1 < n;
            let d = if has_next { char_vec[index_to + 1] } else { ' ' };
            let incr: usize = if has_next && ((c == '\r' && char_vec[index_to + 1] == '\n') || (c == '=' && d == '>')) { 2 } else { 1 };
            let eof = index_to == n - 1;
            let so_far_len = index_to - index_from;
            let is_a_comment_line = so_far_len > 1 && char_vec[index_from] == '/' && char_vec[index_from + 1] == '/';
            let is_a_rustcode_line = so_far_len > 1 && char_vec[index_from] == '#' && char_vec[index_from + 1] == '#';
            let is_marker_for_singlelinefunction = c == '=' && d == '>' && !is_a_comment_line && !is_a_rustcode_line;
            let ghost so_far = chars.subrange(index_from as int, index_to as int);
            assert(so_far_len > 1 ==> so_far[0] == chars[index_from as int] && so_far[1] == chars[index_from + 1]);
            if c == '\r' || c == '\n' || eof || is_marker_for_singlelinefunction {
                let start = index_from;
                let end = index_to + (if is_marker_for_singlelinefunction { 2 } else if eof { 1 } else { 0 });
                let mut line: Vec<CharPosition> = Vec::new();
                let mut k = start;
                while k < end
                    invariant
                        start <= k <= end <= n,
                        n == chars.len(),
                        chars == char_vec@,
                        line@ == positions(chars, start as int, k as int),
                    decreases end - k,
                {
                    line.push((char_vec[k], k));
                    k = k + 1;
                    assert(line@ =~= positions(chars, start as int, k as int));
                }
                let ghost l = line@;
                let ghost prev = lines_view(self.lines_of_chars@);
                self.lines_of_chars.push(line);
                proof {
                    assert(lines_view(self.lines_of_chars@) =~= prev.push(l));
                    assert(char_lines(chars, index_from as int, index_to as int) == seq![l] + char_lines(
                        chars,
                        index_to + incr,
                        index_to + incr,
                    ));
                    assert(prev.push(l) + char_lines(chars, index_to + incr, index_to + incr) =~= prev + (seq![l]
                        + char_lines(chars, index_to + incr, index_to + incr)));
                }
                index_from = index_to + incr;
            }
            index_to = index_to + incr;
        }
    }
}


/// Every line of characters is ASCII.
pub open spec fn lines_ascii(lines: Seq<Seq<CharPosition>>) -> bool {
    forall|i: int| 0 <= i < lines.len() ==> is_ascii_text(#[trigger] line_chars(lines[i]))
}

/// The tokens of one line's text.
fn tokenize(char_vec: &Vec<char>, line: usize) -> (r: Tokens)
    ensures
        r@.map_values(|t: Token| token_view(t)) == line_tokens(char_vec@, line, 0, 0, false, 0),
{
    let ghost chars = char_vec@;
    let n = char_vec.len();
    let mut index_from: usize = 0;
    let mut index_to: usize = 0;
    let mut count_quotes: i64 = 0;
    let mut inside_quotes = false;
    let mut line_of_tokens: Tokens = Vec::new();
    let is_comment = n > 1 && char_vec[0] == '/' && char_vec[1] == '/';
    let is_rustcode = n > 1 && char_vec[0] == '#' && char_vec[1] == '#';
    while index_to < n
        invariant
            chars == char_vec@,
            n == chars.len(),
            index_from <= index_to <= n,
            (inside_quotes && count_quotes == 1) || (!inside_quotes && count_quotes == 0),
            is_comment == (chars.len() > 1 && chars[0] == '/' && chars[1] == '/'),
            is_rustcode == (chars.len() > 1 && chars[0] == '#' && chars[1] == '#'),
            line_of_tokens@.map_values(|t: Token| token_view(t)) + line_tokens(chars, line, index_from as int, index_to as int, inside_quotes, count_quotes as int)
                == line_tokens(chars, line, 0, 0, false, 0),
        decreases n - index_to,
    {
        let c = char_vec[index_to];
        let eof = index_to == n - 1;
        if c == '"' {
            if inside_quotes {
                inside_quotes = false;
                count_quotes = count_quotes - 1;
            } else {
                inside_quotes = true;
                count_quotes = count_quotes + 1;
            }
        }
        if (text::is_whitespace(c) && index_to != 0 && !inside_quotes && !is_comment && !is_rustcode) || eof || count_quotes == 2 {
            let start = index_from;
            let end = index_to + (if eof || count_quotes == 2 { 1 } else { 0 });
            let token_chars = text::string_from_chars(vstd::slice::slice_subrange(char_vec.as_slice(), start, end));
            let ghost prev = line_of_tokens@.map_values(|t: Token| token_view(t));
            let token: Token = (token_chars, line, start, end - 1);
            let ghost tv = token_view(token);
            line_of_tokens.push(token);
            proof {
                assert(line_of_tokens@.map_values(|t: Token| token_view(t)) =~= prev.push(tv));
                assert(prev.push(tv) + line_tokens(chars, line, index_to + 1, index_to + 1, false, 0) =~= prev + (seq![tv]
                    + line_tokens(chars, line, index_to + 1, index_to + 1, false, 0)));
            }
            index_from = index_to + 1;
            inside_quotes = false;
            count_quotes = 0;
        }
        index_to = index_to + 1;
    }
    assert(line_of_tokens@.map_values(|t: Token| token_view(t)) =~= line_of_tokens@.map_values(|t: Token| token_view(t)) + Seq::<(Seq<char>, usize, usize, usize)>::empty());
    line_of_tokens
}

impl Compiler {
    /// Splits each line of characters into tokens, after stripping its whitespace at both
    /// ends, and adds the lines of tokens after those already there.
    pub fn set_lines_of_tokens(&mut self)
        ensures
            token_lines_view(final(self).lines_of_tokens@) == token_lines_view(old(self).lines_of_tokens@) + Seq::new(
                old(self).lines_of_chars@.len(),
                |i: int| tokens_of_line(lines_view(old(self).lines_of_chars@), i),
            ),
            final(self).lines_of_chars == old(self).lines_of_chars,
            final(self).file == old(self).file,
            final(self).ast == old(self).ast,
            final(self).error_stack == old(self).error_stack,
            final(self).current_line == old(self).current_line,
            final(self).current_line_token == old(self).current_line_token,
            final(self).debug == old(self).debug,
            final(self).debug_line == old(self).debug_line,
            final(self).debug_step == old(self).debug_step,
            final(self).output == old(self).output,
            final(self).filepath == old(self).filepath,
            final(self).outputdir == old(self).outputdir,
    {
        let ghost lines = lines_view(self.lines_of_chars@);
        let ghost start = token_lines_view(self.lines_of_tokens@);
        let n = self.lines_of_chars.len();
        let mut line: usize = 0;
        while line < n
            invariant
                n == self.lines_of_chars@.len(),
                line <= n,
                lines == lines_view(self.lines_of_chars@),
                start == token_lines_view(old(self).lines_of_tokens@),
                token_lines_view(self.lines_of_tokens@) == start + Seq::new(line as nat, |i: int| tokens_of_line(lines, i)),
                self.lines_of_chars == old(self).lines_of_chars,
                self.file == old(self).file,
                self.ast == old(self).ast,
                self.error_stack == old(self).error_stack,
                self.current_line == old(self).current_line,
                self.current_line_token == old(self).current_line_token,
                self.debug == old(self).debug,
                self.debug_line == old(self).debug_line,
                self.debug_step == old(self).debug_step,
                self.output == old(self).output,
                self.filepath == old(self).filepath,
                self.outputdir == old(self).outputdir,
            decreases n - line,
        {
            let mut char_as_string = String::new();
            let mut k: usize = 0;
            while k < self.lines_of_chars[line].len()
                invariant
                    line < n,
                    n == self.lines_of_chars@.len(),
                    lines == lines_view(self.lines_of_chars@),
                    k <= lines[line as int].len(),
                    char_as_string@ == line_chars(lines[line as int]).take(k as int),
                decreases lines[line as int].len() - k,
            {
                text::push_char(&mut char_as_string, self.lines_of_chars[line][k].0);
                k = k + 1;
                assert(char_as_string@ =~= line_chars(lines[line as int]).take(k as int));
            }
            let ghost lc = line_chars(lines[line as int]);
            assert(char_as_string@ =~= lc);
            let removed_leading_whitespace = parse::strip_leading_whitespace(&char_as_string);
            let removed_trailing_whitespace = parse::strip_trailing_whitespace(&removed_leading_whitespace);
            let char_vec = text::chars_of(&removed_trailing_whitespace);
            assert(char_vec@ == stripped(lc));
            let line_of_tokens = tokenize(&char_vec, line);
            let ghost prev = token_lines_view(self.lines_of_tokens@);
            let ghost lt = line_of_tokens@.map_values(|t: Token| token_view(t));
            self.lines_of_tokens.push(line_of_tokens);
            proof {
                assert(token_lines_view(self.lines_of_tokens@) =~= prev.push(lt));
                assert(start + Seq::new((line + 1) as nat, |i: int| tokens_of_line(lines, i)) =~= (start + Seq::new(
                    line as nat,
                    |i: int| tokens_of_line(lines, i),
                )).push(tokens_of_line(lines, line as int)));
            }
            line = line + 1;
        }
    }
}


/// The lines of tokens of a compiler, each as a sequence.
pub open spec fn token_seqs(c: &Compiler) -> Seq<Seq<Token>> {
    c.lines_of_tokens@.map_values(|l: Tokens| l@)
}

/// What parsing the lines from the `i`th on gives, each non-empty line from its first token:
/// the state at the end, the first error (with its line, its token's index, its message and
/// the length of its arrow), and the last line and token position reached.
pub open spec fn lines_run(s: AstState, lines: Seq<Seq<Token>>, i: nat, cl: nat, ct: nat) -> (AstState, Option<(nat, nat, Seq<char>, usize)>, nat, nat)
    decreases lines.len() - i,
{
    if i >= lines.len() {
        (s, None, cl, ct)
    } else if lines[i as int].len() == 0 {
        lines_run(s, lines, i + 1, cl, ct)
    } else {
        let (s2, err) = parse::line_run(s, lines[i as int], 0);
        match err {
            None => lines_run(s2, lines, i + 1, i, lines[i as int].len()),
            Some((k, m, len)) => (s2, Some((i, k, m, len)), i, k),
        }
    }
}

/// The compiler `c` at token `k` of line `i`.
pub open spec fn at_pos(c: &Compiler, i: nat, k: nat) -> Compiler {
    Compiler { current_line: i as usize, current_line_token: k as usize, ..*c }
}

/// Every line of tokens can be parsed without a fault.
pub open spec fn lines_safe(c: &Compiler) -> bool {
    forall|i: int| 0 <= i < c.lines_of_tokens@.len() ==> line_safe(#[trigger] c.lines_of_tokens@[i]@)
}

/// The lines that parsing from line `i` on (or line `i` alone when `one`) goes through.
pub open spec fn lines_to_parse(c: &Compiler, i: nat, one: bool) -> Seq<Seq<Token>> {
    if one && i < token_seqs(c).len() { token_seqs(c).take((i + 1) as int) } else { token_seqs(c) }
}

/// Parsing the lines from `i` on (or line `i` alone when `one`) can record its error: the
/// line where it fails, if it fails, has its line of characters.
pub open spec fn lines_can_end(c: &Compiler, i: nat, one: bool) -> bool {
    match lines_run(c.ast.state(), lines_to_parse(c, i, one), i, c.current_line as nat, c.current_line_token as nat).1 {
        Some((li, _, _, _)) => li < c.lines_of_chars@.len(),
        None => true,
    }
}

/// Parsing lines fails, if at all, at one of the lines it parses.
proof fn lemma_lines_run_error_line(s: AstState, lines: Seq<Seq<Token>>, i: nat, cl: nat, ct: nat)
    ensures
        match lines_run(s, lines, i, cl, ct).1 {
            Some((li, _, _, _)) => i <= li < lines.len(),
            None => true,
        },
    decreases lines.len() - i,
{
    if i < lines.len() {
        if lines[i as int].len() == 0 {
            lemma_lines_run_error_line(s, lines, i + 1, cl, ct);
        } else {
            let (s2, err) = parse::line_run(s, lines[i as int], 0);
            if err is None {
                lemma_lines_run_error_line(s2, lines, i + 1, i, lines[i as int].len());
            }
        }
    }
}

/// When every line of tokens has its line of characters, parsing can always record its error.
proof fn lemma_lines_can_end(c: &Compiler, i: nat, one: bool)
    requires
        c.lines_of_tokens@.len() <= c.lines_of_chars@.len(),
    ensures
        lines_can_end(c, i, one),
{
    lemma_lines_run_error_line(c.ast.state(), lines_to_parse(c, i, one), i, c.current_line as nat, c.current_line_token as nat);
}

/// `new` is `old` after parsing the lines from `i` on (or the one line `i` when `one`):
/// the AST is in the state that `lines_run` gives, and on an error, the error is recorded at
/// its token.
pub open spec fn lines_parsed(old: &Compiler, new: &Compiler, r: Result<(), ()>, i: nat, one: bool) -> bool {
    let lines = if one && i < token_seqs(old).len() { token_seqs(old).take((i + 1) as int) } else { token_seqs(old) };
    let (s_end, err, cl, ct) = lines_run(old.ast.state(), lines, i, old.current_line as nat, old.current_line_token as nat);
    &&& new.wf()
    &&& new.same_input(old)
    &&& new.ast.same_but_tree(&old.ast)
    &&& new.ast.els() == s_end.els
    &&& new.ast.parents@ == s_end.parents
    &&& new.current_line == cl
    &&& new.current_line_token == ct
    &&& match err {
        None => r is Ok && new.error_stack == old.error_stack,
        Some((li, k, m, len)) => r is Err && append::error_added(&at_pos(old, li, k), new, m, len),
    }
}

/// Parsing the lines from `i` on goes as parsing line `i` alone, and then, when that ends
/// with no error, the lines from `i + 1` on.
proof fn lemma_lines_run_step(s: AstState, full: Seq<Seq<Token>>, i: nat, cl: nat, ct: nat)
    requires
        i < full.len(),
    ensures
        ({
            let (s1, e1, cl1, ct1) = lines_run(s, full.take((i + 1) as int), i, cl, ct);
            &&& e1 is None ==> lines_run(s, full, i, cl, ct) == lines_run(s1, full, i + 1, cl1, ct1)
            &&& e1 is Some ==> lines_run(s, full, i, cl, ct) == (s1, e1, cl1, ct1)
        }),
{
    let one = full.take((i + 1) as int);
    assert(one[i as int] == full[i as int]);
    if full[i as int].len() == 0 {
        assert(lines_run(s, one, i + 1, cl, ct) == (s, None::<(nat, nat, Seq<char>, usize)>, cl, ct));
    } else {
        let (s2, err) = parse::line_run(s, full[i as int], 0);
        assert(lines_run(s2, one, i + 1, i, full[i as int].len()) == (s2, None::<(nat, nat, Seq<char>, usize)>, i, full[i as int].len()));
    }
}

impl Compiler {
    /// Parses one line of tokens from its first token, when there is such a line and it is
    /// not empty.
    fn parse_one_line(&mut self, line: usize) -> (r: Result<(), ()>)
        requires
            old(self).wf(),
            lines_safe(old(self)),
            lines_can_end(old(self), line as nat, true),
        ensures
            lines_parsed(old(self), final(self), r, line as nat, true),
    {
        let ghost c0 = *self;
        let ghost lines = if (line as nat) < token_seqs(&c0).len() { token_seqs(&c0).take(line + 1) } else { token_seqs(&c0) };
        if line < self.lines_of_tokens.len() && self.lines_of_tokens[line].len() > 0 {
            self.current_line = line;
            self.current_line_token = 0;
            let ghost c1 = *self;
            assert(line_safe(self.lines_of_tokens@[line as int]@));
            assert(lines[line as int] == c1.lines_of_tokens@[line as int]@);
            assert(lines_to_parse(&c0, line as nat, true) == lines);
            let r = parse::current_line(self);
            proof {
                assert(lines[line as int] == c1.lines_of_tokens@[line as int]@);
                let (s2, err) = parse::line_run(c0.ast.state(), lines[line as int], 0);
                assert(lines_run(s2, lines, (line + 1) as nat, line as nat, lines[line as int].len()) == (s2, None::<(nat, nat, Seq<char>, usize)>, line as nat, lines[line as int].len()));
                match err {
                    Some((k, m, len)) => {
                        assert(parse::at_token_k(&c1, k) == at_pos(&c0, line as nat, k));
                    },
                    None => {},
                }
            }
            r?;
        } else {
            proof {
                if (line as nat) < token_seqs(&c0).len() {
                    assert(lines_run(c0.ast.state(), lines, (line + 1) as nat, c0.current_line as nat, c0.current_line_token as nat) == (c0.ast.state(), None::<(nat, nat, Seq<char>, usize)>, c0.current_line as nat, c0.current_line_token as nat));
                }
            }
        }
        Ok(())
    }

    /// Parses the lines of tokens, in order, until the first error; in debug mode only the
    /// line `debug_line`.
    fn main_loop_over_lines_of_tokens(&mut self) -> (r: Result<(), ()>)
        requires
            old(self).wf(),
            lines_safe(old(self)),
            lines_can_end(old(self), first_line(old(self)), old(self).debug),
        ensures
            lines_parsed(old(self), final(self), r, if old(self).debug { old(self).debug_line as nat } else { 0 }, old(self).debug),
    {
        if self.debug {
            let line = self.debug_line;
            return self.parse_one_line(line);
        }
        let ghost c0 = *self;
        let ghost lines = token_seqs(&c0);
        let n = self.lines_of_tokens.len();
        let mut line: usize = 0;
        while line < n
            invariant
                c0 == *old(self),
                !c0.debug,
                lines == token_seqs(&c0),
                n == lines.len(),
                line <= n,
                self.wf(),
                lines_safe(self),
                self.same_input(&c0),
                self.ast.same_but_tree(&c0.ast),
                self.error_stack == c0.error_stack,
                lines_run(self.ast.state(), lines, line as nat, self.current_line as nat, self.current_line_token as nat)
                    == lines_run(c0.ast.state(), lines, 0, c0.current_line as nat, c0.current_line_token as nat),
                lines_can_end(&c0, 0, false),
            decreases n - line,
        {
            let ghost before = *self;
            proof {
                assert(token_seqs(&before) == lines);
                assert(lines_to_parse(&c0, 0, false) == lines);
                lemma_lines_run_step(before.ast.state(), lines, line as nat, before.current_line as nat, before.current_line_token as nat);
                assert(lines_to_parse(&before, line as nat, true) == lines.take(line + 1));
            }
            let r = self.parse_one_line(line);
            proof {
                assert(token_seqs(&before) == lines);
                lemma_lines_run_step(before.ast.state(), lines, line as nat, before.current_line as nat, before.current_line_token as nat);
                let (s1, e1, cl1, ct1) = lines_run(before.ast.state(), lines.take(line + 1), line as nat, before.current_line as nat, before.current_line_token as nat);
                match e1 {
                    Some((li, k, m, len)) => {
                        let a = at_pos(&before, li, k);
                        let b = at_pos(&c0, li, k);
                        assert(errors::error_text(&a, 0, len, m) == errors::error_text(&b, 0, len, m));
                        assert(a.error_stack == b.error_stack);
                        assert(a.lines_of_tokens == b.lines_of_tokens);
                    },
                    None => {},
                }
            }
            r?;
            line = line + 1;
        }
        Ok(())
    }
}

/// The lines of an ASCII text are ASCII.
proof fn lemma_char_lines_ascii(chars: Seq<char>, from: int, to: int)
    requires
        is_ascii_text(chars),
    ensures
        lines_ascii(char_lines(chars, from, to)),
    decreases chars.len() - to,
{
    if to >= chars.len() || to < from || from < 0 {
    } else {
        let c = chars[to];
        let has_next = to + 1 < chars.len();
        let d = if has_next { chars[to + 1] } else { ' ' };
        let incr = if has_next && ((c == '\r' && chars[to + 1] == '\n') || (c == '=' && d == '>')) { 2int } else { 1int };
        let eof = to == chars.len() - 1;
        let so_far = chars.subrange(from, to);
        let is_a_comment_line = so_far.len() > 1 && so_far[0] == '/' && so_far[1] == '/';
        let is_a_rustcode_line = so_far.len() > 1 && so_far[0] == '#' && so_far[1] == '#';
        let marker = c == '=' && d == '>' && !is_a_comment_line && !is_a_rustcode_line;
        if c == '\r' || c == '\n' || eof || marker {
            let end = to + (if marker { 2int } else if eof { 1int } else { 0int });
            lemma_char_lines_ascii(chars, to + incr, to + incr);
            let first = positions(chars, from, end);
            let rest = char_lines(chars, to + incr, to + incr);
            assert(is_ascii_text(line_chars(first))) by {
                assert forall|i: int| 0 <= i < line_chars(first).len() implies (#[trigger] line_chars(first)[i] as u32) < 128 by {
                    assert(line_chars(first)[i] == chars[from + i]);
                }
            }
            assert forall|i: int| 0 <= i < (seq![first] + rest).len() implies is_ascii_text(#[trigger] line_chars((seq![first] + rest)[i])) by {
                if i > 0 {
                    assert((seq![first] + rest)[i] == rest[i - 1]);
                }
            }
        } else {
            lemma_char_lines_ascii(chars, from, to + incr);
        }
    }
}

/// The tokens of an ASCII text are ASCII.
proof fn lemma_line_tokens_ascii(chars: Seq<char>, line: usize, from: int, to: int, inside_quotes: bool, count_quotes: int)
    requires
        is_ascii_text(chars),
    ensures
        forall|k: int| 0 <= k < line_tokens(chars, line, from, to, inside_quotes, count_quotes).len()
            ==> is_ascii_text(#[trigger] line_tokens(chars, line, from, to, inside_quotes, count_quotes)[k].0),
    decreases chars.len() - to,
{
    if to >= chars.len() || to < from || from < 0 {
    } else {
        let c = chars[to];
        let eof = to == chars.len() - 1;
        let (inside, count) = if c == '"' {
            if inside_quotes { (false, count_quotes - 1) } else { (true, count_quotes + 1) }
        } else {
            (inside_quotes, count_quotes)
        };
        let is_comment = chars.len() > 1 && chars[0] == '/' && chars[1] == '/';
        let is_rustcode = chars.len() > 1 && chars[0] == '#' && chars[1] == '#';
        if (spec_is_whitespace(c) && to != 0 && !inside && !is_comment && !is_rustcode) || eof || count == 2 {
            let end = to + (if eof || count == 2 { 1int } else { 0int });
            lemma_line_tokens_ascii(chars, line, to + 1, to + 1, false, 0);
            let all = line_tokens(chars, line, from, to, inside_quotes, count_quotes);
            let rest = line_tokens(chars, line, to + 1, to + 1, false, 0);
            let t = chars.subrange(from, end);
            assert(all == seq![(t, line, from as usize, (end - 1) as usize)] + rest);
            assert(is_ascii_text(t)) by {
                assert forall|i: int| 0 <= i < t.len() implies (#[trigger] t[i] as u32) < 128 by {
                    assert(t[i] == chars[from + i]);
                }
            }
            assert forall|k: int| 0 <= k < all.len() implies is_ascii_text(#[trigger] all[k].0) by {
                if k > 0 {
                    assert(all[k] == rest[k - 1]);
                }
            }
        } else {
            lemma_line_tokens_ascii(chars, line, from, to + 1, inside, count);
            assert(line_tokens(chars, line, from, to, inside_quotes, count_quotes) == line_tokens(chars, line, from, to + 1, inside, count));
        }
    }
}

/// An ASCII line stays ASCII with its whitespace stripped.
proof fn lemma_stripped_ascii(line: Seq<char>)
    requires
        is_ascii_text(line),
    ensures
        is_ascii_text(stripped(line)),
{
    let a = line.skip(leading_ws(line) as int);
    crate::parse::lemma_ws_len(line);
    crate::parse::lemma_ws_len(a);
    assert forall|i: int| 0 <= i < a.len() implies (#[trigger] a[i] as u32) < 128 by {
        assert(a[i] == line[leading_ws(line) + i]);
    }
    let b = a.take(a.len() - trailing_ws(a));
    assert forall|i: int| 0 <= i < b.len() implies (#[trigger] b[i] as u32) < 128 by {
        assert(b[i] == a[i]);
    }
}

/// Every token of the text can be parsed without a fault: each number and each string
/// among its tokens is ASCII (see `token_safe`).
pub open spec fn file_tokens_safe(chars: Seq<char>) -> bool {
    let lines = char_lines(chars, 0, 0);
    forall|i: int, k: int|
        0 <= i < lines.len() && 0 <= k < tokens_of_line(lines, i).len() ==> crate::parse::token_safe(
            #[trigger] tokens_of_line(lines, i)[k].0,
        )
}

/// The tokens of an ASCII text can all be parsed.
pub proof fn ascii_text_has_safe_tokens(chars: Seq<char>)
    requires
        is_ascii_text(chars),
    ensures
        file_tokens_safe(chars),
{
    let lines = char_lines(chars, 0, 0);
    lemma_char_lines_ascii(chars, 0, 0);
    assert forall|i: int, k: int|
        0 <= i < lines.len() && 0 <= k < tokens_of_line(lines, i).len() implies crate::parse::token_safe(
        #[trigger] tokens_of_line(lines, i)[k].0,
    ) by {
        assert(is_ascii_text(line_chars(lines[i])));
        lemma_stripped_ascii(line_chars(lines[i]));
        lemma_line_tokens_ascii(stripped(line_chars(lines[i])), i as usize, 0, 0, false, 0);
        assert(is_ascii_text(tokens_of_line(lines, i)[k].0));
    }
}

/// The lines of tokens made from a text whose tokens are safe can all be parsed.
proof fn lemma_tokens_safe(c: &Compiler, chars: Seq<char>)
    requires
        file_tokens_safe(chars),
        lines_view(c.lines_of_chars@) == char_lines(chars, 0, 0),
        token_lines_view(c.lines_of_tokens@) == Seq::new(
            c.lines_of_chars@.len(),
            |i: int| tokens_of_line(lines_view(c.lines_of_chars@), i),
        ),
    ensures
        lines_safe(c),
{
    let lines = lines_view(c.lines_of_chars@);
    assert(token_lines_view(c.lines_of_tokens@).len() == c.lines_of_tokens@.len());
    assert(lines.len() == c.lines_of_chars@.len());
    assert forall|i: int| 0 <= i < c.lines_of_tokens@.len() implies line_safe(#[trigger] c.lines_of_tokens@[i]@) by {
        let toks = tokens_of_line(lines, i);
        assert(token_lines_view(c.lines_of_tokens@)[i] == toks);
        assert forall|k: int| 0 <= k < c.lines_of_tokens@[i]@.len() implies crate::parse::token_safe(#[trigger] c.lines_of_tokens@[i]@[k].0@) by {
            assert(c.lines_of_tokens@[i]@.map_values(|t: Token| token_view(t))[k] == toks[k]);
            assert(crate::parse::token_safe(tokens_of_line(lines, i)[k].0));
        }
    }
}

/// The line that the main loop starts at: the debug line in debug mode, else the first.
pub open spec fn first_line(c: &Compiler) -> nat {
    if c.debug { c.debug_line as nat } else { 0 }
}

/// `new` is `old` after the main loop: the lines are parsed (see `lines_parsed`), and when
/// that ends with no error and no error was recorded before, the program is written (see
/// `output_written`).
pub open spec fn main_loop_done(old: &Compiler, new: &Compiler) -> bool {
    exists|mid: Compiler, res: Result<(), ()>|
        #[trigger] lines_parsed(old, &mid, res, first_line(old), old.debug) && if res is Ok && mid.error_stack@.len() == 0 {
            crate::ast::output::output_written(&mid, new)
        } else {
            *new == mid
        }
}

impl Compiler {
    /// Parses the lines of tokens and, when no error was found, writes the program.
    fn run_main_loop(&mut self, tokens: bool) -> (r: Result<(), ()>)
        requires
            old(self).wf(),
            lines_safe(old(self)),
            lines_can_end(old(self), first_line(old(self)), old(self).debug),
        ensures
            r is Ok,
            main_loop_done(old(self), final(self)),
    {
        let ghost c0 = *self;
        let res = self.main_loop_over_lines_of_tokens();
        let ghost mid = *self;
        if res.is_ok() && self.error_stack.len() == 0 {
            crate::ast::output::set_output(self);
        }
        assert(lines_parsed(&c0, &mid, res, first_line(&c0), c0.debug));
        assert(if res is Ok && mid.error_stack@.len() == 0 {
            crate::ast::output::output_written(&mid, self)
        } else {
            *self == mid
        });
        Ok(())
    }

    /// The main tasks: splits the file into lines of characters and of tokens, parses them,
    /// and writes the program when no error was found.
    pub fn run_main_tasks(&mut self, tokens: bool) -> (r: Result<(), ()>)
        requires
            old(self).wf(),
            old(self).lines_of_chars@.len() == 0,
            old(self).lines_of_tokens@.len() == 0,
            file_tokens_safe(old(self).file.filecontents@),
        ensures
            r is Ok,
            ({
                let lines = char_lines(old(self).file.filecontents@, 0, 0);
                exists|mid: Compiler|
                    #[trigger] lines_view(mid.lines_of_chars@) == lines
                    && token_lines_view(mid.lines_of_tokens@) == Seq::new(lines.len(), |i: int| tokens_of_line(lines, i))
                    && mid.same_but_lines(old(self))
                    && main_loop_done(&mid, final(self))
            }),
    {
        let ghost c0 = *self;
        self.set_lines_of_chars();
        proof {
            assert(lines_view(self.lines_of_chars@) =~= char_lines(c0.file.filecontents@, 0, 0));
        }
        self.set_lines_of_tokens();
        proof {
            assert(token_lines_view(self.lines_of_tokens@) =~= Seq::new(
                self.lines_of_chars@.len(),
                |i: int| tokens_of_line(lines_view(self.lines_of_chars@), i),
            ));
            lemma_tokens_safe(self, c0.file.filecontents@);
            lemma_lines_can_end(self, first_line(self), self.debug);
        }
        let ghost mid = *self;
        let r = self.run_main_loop(tokens);
        assert(lines_view(mid.lines_of_chars@) == char_lines(c0.file.filecontents@, 0, 0));
        r
    }
}

/// The last step of compilation that the compiler has completed, as the debugger counts
/// them: 5 when there is output, 4 when the debug line has passed every line of tokens, 3
/// when there are lines of tokens, 2 when there are lines of characters, 1 when the file
/// has a path, else 0.
pub open spec fn completed_step(c: &Compiler) -> usize {
    if c.ast.output@.len() > 0 {
        5
    } else if c.debug_line > 0 && c.debug_line == c.lines_of_tokens@.len() {
        4
    } else if c.lines_of_tokens@.len() > 0 {
        3
    } else if c.lines_of_chars@.len() > 0 {
        2
    } else if c.file.filepath@.len() > 0 {
        1
    } else {
        0
    }
}

/// `new` is `old` after the debugger's step `step` (see `Compiler::debug_step`).
pub open spec fn debug_stepped(old: &Compiler, new: &Compiler, step: usize) -> bool {
    let s1 = Compiler { debug_step: step, ..*old };
    if step == 2 {
        &&& lines_view(new.lines_of_chars@) == lines_view(s1.lines_of_chars@) + char_lines(s1.file.filecontents@, 0, 0)
        &&& *new == (Compiler { lines_of_chars: new.lines_of_chars, ..s1 })
    } else if step == 3 {
        &&& token_lines_view(new.lines_of_tokens@) == token_lines_view(s1.lines_of_tokens@) + Seq::new(
            s1.lines_of_chars@.len(),
            |i: int| tokens_of_line(lines_view(s1.lines_of_chars@), i),
        )
        &&& *new == (Compiler { lines_of_tokens: new.lines_of_tokens, ..s1 })
    } else if step == 4 {
        if s1.debug_line < s1.lines_of_tokens@.len() {
            exists|mid: Compiler, res: Result<(), ()>|
                #[trigger] lines_parsed(&s1, &mid, res, first_line(&s1), s1.debug)
                && *new == (Compiler { debug_line: (mid.debug_line + 1) as usize, ..mid })
        } else {
            *new == s1
        }
    } else if step == 5 {
        exists|mid: Compiler|
            #[trigger] crate::ast::output::output_written(&mid, new)
            && mid.ast.output@.len() == 0
            && mid == (Compiler { ast: Ast { output: mid.ast.output, ..s1.ast }, ..s1 })
    } else {
        *new == s1
    }
}

impl Compiler {
    /// A new compiler for the file at `filepath`, with nothing read or compiled yet; the
    /// output directory is `option_outputdir`, or empty.
    pub fn new(filepath: String, debug: bool, option_outputdir: Option<String>, nosave: bool, tokens: bool) -> (r: Result<Compiler, String>)
        ensures
            match r {
                Ok(c) => {
                    &&& c.wf()
                    &&& c.filepath == filepath
                    &&& c.debug == debug
                    &&& c.debug_step == 0
                    &&& c.debug_line == 0
                    &&& c.outputdir@ == (match option_outputdir {
                        Some(o) => o@,
                        None => Seq::<char>::empty(),
                    })
                    &&& c.file.filepath@.len() == 0
                    &&& c.file.filename@.len() == 0
                    &&& c.file.filecontents@.len() == 0
                    &&& c.file.nosave == nosave
                    &&& c.lines_of_chars@.len() == 0
                    &&& c.lines_of_tokens@.len() == 0
                    &&& c.output@.len() == 0
                    &&& c.current_line == 0
                    &&& c.current_line_token == 0
                    &&& c.error_stack@.len() == 0
                    &&& c.ast.is_new(debug)
                },
                Err(_) => false,
            },
    {
        let outputdir = match option_outputdir {
            Some(o) => o,
            None => String::new(),
        };
        let ast = Ast::new(debug);
        Ok(Compiler {
            file: File::new(nosave),
            debug,
            debug_step: 0,
            debug_line: 0,
            filepath,
            outputdir,
            lines_of_chars: Vec::new(),
            lines_of_tokens: Vec::new(),
            output: String::new(),
            current_line: 0,
            current_line_token: 0,
            error_stack: Vec::new(),
            ast,
        })
    }

    /// Runs one step of compilation for the debugger and returns the last step completed
    /// (see `completed_step`): 2 splits the file into lines of characters, 3 splits those into
    /// tokens, 4 parses the debug line and moves to the next, 5 writes the program afresh.
    /// Step 1, reading the file, is left to the caller. Lines of tokens made by an earlier
    /// step 3 stay, with the new ones after them.
    pub fn debug_step(&mut self, step: usize) -> (completed: usize)
        requires
            old(self).wf(),
            step == 4 ==> lines_safe(old(self)) && lines_can_end(old(self), first_line(old(self)), old(self).debug),
        ensures
            final(self).wf(),
            debug_stepped(old(self), final(self), step),
            completed == completed_step(final(self)),
    {
        let ghost c0 = *self;
        self.debug_step = step;
        let ghost s1 = *self;
        if step == 2 {
            self.set_lines_of_chars();
            assert(*self == (Compiler { lines_of_chars: self.lines_of_chars, ..s1 }));
            assert(lines_view(self.lines_of_chars@).len() == self.lines_of_chars@.len());
            assert(lines_view(s1.lines_of_chars@).len() == s1.lines_of_chars@.len());
        } else if step == 3 {
            self.set_lines_of_tokens();
            assert(*self == (Compiler { lines_of_tokens: self.lines_of_tokens, ..s1 }));
            assert(token_lines_view(self.lines_of_tokens@).len() == self.lines_of_tokens@.len());
            assert(token_lines_view(s1.lines_of_tokens@).len() == s1.lines_of_tokens@.len());
        } else if step == 4 {
            if self.debug_line < self.lines_of_tokens.len() {
                let res = self.main_loop_over_lines_of_tokens();
                let ghost mid = *self;
                self.debug_line = self.debug_line + 1;
                assert(lines_parsed(&s1, &mid, res, first_line(&s1), s1.debug));
            }
        } else if step == 5 {
            self.ast.output = String::new();
            let ghost mid = *self;
            crate::ast::output::set_output(self);
            assert(crate::ast::output::output_written(&mid, self));
        }
        let mut completed: usize = 0;
        if !self.file.filepath.as_str().is_empty() {
            completed = 1;
        }
        if self.lines_of_chars.len() > 0 {
            completed = 2;
        }
        if self.lines_of_tokens.len() > 0 {
            completed = 3;
        }
        if self.debug_line > 0 && self.debug_line == self.lines_of_tokens.len() {
            completed = 4;
        }
        if !self.ast.output.as_str().is_empty() {
            completed = 5;
        }
        completed
    }
}

/// Each character of a line of characters is the character of the file at the position it
/// records, and the positions within a line follow each other.
pub proof fn char_positions_match_file(chars: Seq<char>, from: int, to: int)
    requires
        chars.len() <= usize::MAX,
    ensures
        forall|l: int, j: int|
            0 <= l < char_lines(chars, from, to).len() && 0 <= j < char_lines(chars, from, to)[l].len() ==> {
                let p = #[trigger] char_lines(chars, from, to)[l][j];
                &&& 0 <= p.1 < chars.len()
                &&& chars[p.1 as int] == p.0
                &&& p.1 == char_lines(chars, from, to)[l][0].1 + j
            },
    decreases chars.len() - to,
{
    if to >= chars.len() || to < from || from < 0 {
    } else {
        let c = chars[to];
        let has_next = to + 1 < chars.len();
        let d = if has_next { chars[to + 1] } else { ' ' };
        let incr = if has_next && ((c == '\r' && chars[to + 1] == '\n') || (c == '=' && d == '>')) { 2int } else { 1int };
        let eof = to == chars.len() - 1;
        let so_far = chars.subrange(from, to);
        let is_a_comment_line = so_far.len() > 1 && so_far[0] == '/' && so_far[1] == '/';
        let is_a_rustcode_line = so_far.len() > 1 && so_far[0] == '#' && so_far[1] == '#';
        let marker = c == '=' && d == '>' && !is_a_comment_line && !is_a_rustcode_line;
        char_positions_match_file(chars, to + incr, to + incr);
        if c == '\r' || c == '\n' || eof || marker {
            let end = to + (if marker { 2int } else if eof { 1int } else { 0int });
            let first = positions(chars, from, end);
            let rest = char_lines(chars, to + incr, to + incr);
            let all = char_lines(chars, from, to);
            assert(all == seq![first] + rest);
            assert forall|l: int, j: int| 0 <= l < all.len() && 0 <= j < all[l].len() implies {
                let p = #[trigger] all[l][j];
                &&& 0 <= p.1 < chars.len()
                &&& chars[p.1 as int] == p.0
                &&& p.1 == all[l][0].1 + j
            } by {
                if l > 0 {
                    assert(all[l] == rest[l - 1]);
                }
            }
        } else {
            char_positions_match_file(chars, from, to + incr);
            assert(char_lines(chars, from, to) == char_lines(chars, from, to + incr));
        }
    }
}

/// Each token is the slice of its line's text from its first to its last position, and
/// records its line.
pub proof fn tokens_are_slices(chars: Seq<char>, line: usize, from: int, to: int, inside_quotes: bool, count_quotes: int)
    requires
        chars.len() <= usize::MAX,
    ensures
        forall|k: int| 0 <= k < line_tokens(chars, line, from, to, inside_quotes, count_quotes).len() ==> {
            let t = #[trigger] line_tokens(chars, line, from, to, inside_quotes, count_quotes)[k];
            &&& t.1 == line
            &&& t.2 <= t.3 + 1 <= chars.len()
            &&& t.0 == chars.subrange(t.2 as int, t.3 + 1)
        },
    decreases chars.len() - to,
{
    if to >= chars.len() || to < from || from < 0 {
    } else {
        let c = chars[to];
        let eof = to == chars.len() - 1;
        let (inside, count) = if c == '"' {
            if inside_quotes { (false, count_quotes - 1) } else { (true, count_quotes + 1) }
        } else {
            (inside_quotes, count_quotes)
        };
        let is_comment = chars.len() > 1 && chars[0] == '/' && chars[1] == '/';
        let is_rustcode = chars.len() > 1 && chars[0] == '#' && chars[1] == '#';
        if (spec_is_whitespace(c) && to != 0 && !inside && !is_comment && !is_rustcode) || eof || count == 2 {
            let end = to + (if eof || count == 2 { 1int } else { 0int });
            tokens_are_slices(chars, line, to + 1, to + 1, false, 0);
            let all = line_tokens(chars, line, from, to, inside_quotes, count_quotes);
            let rest = line_tokens(chars, line, to + 1, to + 1, false, 0);
            assert(all == seq![(chars.subrange(from, end), line, from as usize, (end - 1) as usize)] + rest);
            assert(end >= 1);
            assert forall|k: int| 0 <= k < all.len() implies {
                let t = #[trigger] all[k];
                &&& t.1 == line
                &&& t.2 <= t.3 + 1 <= chars.len()
                &&& t.0 == chars.subrange(t.2 as int, t.3 + 1)
            } by {
                if k > 0 {
                    assert(all[k] == rest[k - 1]);
                }
            }
        } else {
            tokens_are_slices(chars, line, from, to + 1, inside, count);
            assert(line_tokens(chars, line, from, to, inside_quotes, count_quotes) == line_tokens(chars, line, from, to + 1, inside, count));
        }
    }
}

/// The main loop adds at most one error (parsing stops at the first), and once there is an
/// error, no program is written: the output stays as it was.
pub proof fn errors_stop_output(old: &Compiler, new: &Compiler)
    requires
        main_loop_done(old, new),
    ensures
        new.error_stack@.len() == old.error_stack@.len() || new.error_stack@.len() == old.error_stack@.len() + 1,
        new.error_stack@.len() > 0 ==> new.ast.output == old.ast.output,
{
    let (mid, res) = choose|mid: Compiler, res: Result<(), ()>|
        #[trigger] lines_parsed(old, &mid, res, first_line(old), old.debug) && if res is Ok && mid.error_stack@.len() == 0 {
            crate::ast::output::output_written(&mid, new)
        } else {
            *new == mid
        };
    let lines = if old.debug && first_line(old) < token_seqs(old).len() { token_seqs(old).take((first_line(old) + 1) as int) } else { token_seqs(old) };
    let (s_end, err, cl, ct) = lines_run(old.ast.state(), lines, first_line(old), old.current_line as nat, old.current_line_token as nat);
    match err {
        Some((li, k, m, len)) => {
            assert(at_pos(old, li, k).error_stack == old.error_stack);
        },
        None => {},
    }
}

} // verus!
