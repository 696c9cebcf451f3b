//! File names for workspaces, and the marker command with its quoting.

use vstd::prelude::*;
use vstd::string::*;
use crate::config::PATH_DELIM;
use crate::text::{replace_any, replaced};

verus! {

/// The workspace path as one file name component: every `/`, `\` and `:`
/// becomes the path delimiter.
pub open spec fn escaped_workspace(workspace: Seq<char>) -> Seq<char> {
    replaced(workspace, "/\\:"@, PATH_DELIM@)
}

/// Escapes a workspace path into one file name component.
pub fn escape_workspace(workspace: &str) -> (r: String)
    ensures
        r@ == escaped_workspace(workspace@),
{
    replace_any(workspace, "/\\:", PATH_DELIM)
}

/// The name of the capture file for a workspace.
pub fn capture_file_name(workspace: &str) -> (r: String)
    ensures
        r@ == escaped_workspace(workspace@) + ".capture.json"@,
{
    let mut name = escape_workspace(workspace);
    name.append(".capture.json");
    name
}

/// The name of the lock file for a workspace.
pub fn lock_file_name(workspace: &str) -> (r: String)
    ensures
        r@ == escaped_workspace(workspace@) + ".lock"@,
{
    let mut name = escape_workspace(workspace);
    name.append(".lock");
    name
}

/// How a command line is quoted.
#[derive(Debug, Clone, Copy, PartialEq, Eq, Structural)]
pub enum ShellStyle {
    /// Single quotes, for `sh`.
    Posix,
    /// Double quotes, for `cmd.exe`.
    Cmd,
}

/// `s` in quotes, with the quotes inside it written so that they stay literal.
pub open spec fn quoted(style: ShellStyle, s: Seq<char>) -> Seq<char> {
    match style {
        ShellStyle::Posix => "'"@ + replaced(s, "'"@, "'\"'\"'"@) + "'"@,
        ShellStyle::Cmd => "\""@ + replaced(s, "\""@, "\"\""@) + "\""@,
    }
}

/// `std::path::is_separator` tells whether a character separates the parts of a
/// path on the machine that the program runs on.
pub assume_specification[ std::path::is_separator ](c: char) -> bool
;

/// The style of the machine that the program runs on: the one for what
/// `std::path::is_separator` says of the backslash there.
pub fn native_style() -> (style: ShellStyle)
    ensures
        exists|separates: bool| #[trigger]
            call_ensures(std::path::is_separator, ('\\',), separates) && style
                == native_style_for(separates),
{
    let separates = std::path::is_separator('\\');
    proof {
        assert(call_ensures(std::path::is_separator, ('\\',), separates));
    }
    style_for(separates)
}

/// The style of a machine, given whether a backslash separates the parts of a path
/// there: where it does, commands go to `cmd.exe`.
pub fn style_for(backslash_separates: bool) -> (style: ShellStyle)
    ensures
        style == native_style_for(backslash_separates),
{
    if backslash_separates {
        ShellStyle::Cmd
    } else {
        ShellStyle::Posix
    }
}

/// The style of a machine, given whether a backslash separates the parts of a path
/// there.
pub open spec fn native_style_for(backslash_separates: bool) -> ShellStyle {
    if backslash_separates {
        ShellStyle::Cmd
    } else {
        ShellStyle::Posix
    }
}

/// Quotes a path for use in a command line of the given style.
pub fn shell_quote_as(style: ShellStyle, s: &str) -> (r: String)
    ensures
        r@ == quoted(style, s@),
{
    let mut out = String::new();
    match style {
        ShellStyle::Posix => {
            out.append("'");
            out.append(replace_any(s, "'", "'\"'\"'").as_str());
            out.append("'");
        },
        ShellStyle::Cmd => {
            out.append("\"");
            out.append(replace_any(s, "\"", "\"\"").as_str());
            out.append("\"");
        },
    }
    proof {
        assert(out@ =~= quoted(style, s@));
    }
    out
}

/// Quotes a path for use in a command line of this machine.
pub fn shell_quote(s: &str) -> (r: String)
    ensures
        exists|separates: bool| #[trigger]
            call_ensures(std::path::is_separator, ('\\',), separates) && r@ == quoted(
                native_style_for(separates),
                s@,
            ),
{
    let style = native_style();
    shell_quote_as(style, s)
}

/// The command that a hook runs to report the session: the program, the
/// subcommand, the capture file, and the lock file that names the registrant.
pub open spec fn marker_text(
    style: ShellStyle,
    exe: Seq<char>,
    capture_path: Seq<char>,
    lock_path: Seq<char>,
) -> Seq<char> {
    quoted(style, exe) + " internal bob-hook-capture "@ + quoted(style, capture_path)
        + " --ancestor-lock "@ + quoted(style, lock_path)
}

/// Builds the marker command in the given style.
pub fn build_marker_command_as(
    style: ShellStyle,
    exe: &str,
    capture_path: &str,
    lock_path: &str,
) -> (r: String)
    ensures
        r@ == marker_text(style, exe@, capture_path@, lock_path@),
{
    let mut out = shell_quote_as(style, exe);
    out.append(" internal bob-hook-capture ");
    out.append(shell_quote_as(style, capture_path).as_str());
    out.append(" --ancestor-lock ");
    out.append(shell_quote_as(style, lock_path).as_str());
    out
}

/// Builds the marker command for this machine, given the path of the program.
pub fn build_marker_command_with_exe(exe: &str, capture_path: &str, lock_path: &str) -> (r: String)
    ensures
        exists|separates: bool| #[trigger]
            call_ensures(std::path::is_separator, ('\\',), separates) && r@ == marker_text(
                native_style_for(separates),
                exe@,
                capture_path@,
                lock_path@,
            ),
{
    let style = native_style();
    build_marker_command_as(style, exe, capture_path, lock_path)
}

/// Tells whether a character is replaced in a file name component.
pub open spec fn separates(c: char) -> bool {
    c == '/' || c == '\\' || c == ':'
}

proof fn lemma_separators()
    ensures
        forall|c: char| #[trigger] "/\\:"@.contains(c) == separates(c),
        PATH_DELIM@ == seq!['-', '-', '-'],
{
    reveal_strlit("/\\:");
    reveal_strlit("---");
    assert("/\\:"@ =~= seq!['/', '\\', ':']);
    assert forall|c: char| separates(c) implies #[trigger] "/\\:"@.contains(c) by {
        let s = "/\\:"@;
        assert(s[0] == '/');
        assert(s[1] == '\\');
        assert(s[2] == ':');
    }
    assert(PATH_DELIM@ =~= seq!['-', '-', '-']);
}

/// An escaped workspace path is a single file name component: no character that
/// separates the parts of a path is left in it.
pub proof fn law_escaped_workspace_is_one_component(workspace: Seq<char>)
    ensures
        forall|i: int|
            0 <= i < escaped_workspace(workspace).len() ==> !separates(
                #[trigger] escaped_workspace(workspace)[i],
            ),
    decreases workspace.len(),
{
    lemma_separators();
    if workspace.len() > 0 {
        let front = escaped_workspace(workspace.drop_last());
        law_escaped_workspace_is_one_component(workspace.drop_last());
        let all = escaped_workspace(workspace);
        assert forall|i: int| 0 <= i < all.len() implies !separates(#[trigger] all[i]) by {
            if i < front.len() {
                assert(all[i] == front[i]);
            }
        }
    }
}

/// Tells whether the dashes of a path cannot be taken for an escaped separator:
/// none stands next to a separator, and no three stand in a row.
pub open spec fn dashes_stand_apart(path: Seq<char>) -> bool {
    &&& forall|i: int|
        #![trigger path[i]]
        0 <= i < path.len() - 1 ==> !(path[i] == '-' && separates(path[i + 1])) && !(separates(
            path[i],
        ) && path[i + 1] == '-')
    &&& forall|i: int|
        #![trigger path[i]]
        0 <= i < path.len() - 2 ==> !(path[i] == '-' && path[i + 1] == '-' && path[i + 2] == '-')
}

/// Tells whether two paths differ in nothing but which separator they use where.
pub open spec fn same_but_for_separators(a: Seq<char>, b: Seq<char>) -> bool {
    &&& a.len() == b.len()
    &&& forall|i: int|
        0 <= i < a.len() ==> #[trigger] a[i] == b[i] || (separates(a[i]) && separates(b[i]))
}

proof fn lemma_tail_of_dashes(path: Seq<char>)
    requires
        dashes_stand_apart(path),
        path.len() > 0 ==> !separates(path.last()),
    ensures
        ({
            let e = escaped_workspace(path);
            !(e.len() >= 3 && e[e.len() - 1] == '-' && e[e.len() - 2] == '-' && e[e.len() - 3]
                == '-')
        }),
{
    lemma_separators();
    let e = escaped_workspace(path);
    let n = path.len() as int;
    if n > 0 {
        let p1 = path.drop_last();
        assert(e =~= escaped_workspace(p1).push(path[n - 1]));
        if path[n - 1] == '-' && n > 1 {
            assert(path[n - 2] == p1.last());
            assert(!separates(path[n - 2]));
            let p2 = p1.drop_last();
            assert(escaped_workspace(p1) =~= escaped_workspace(p2).push(path[n - 2]));
            if path[n - 2] == '-' && n > 2 {
                assert(path[n - 3] == p2.last());
                assert(!separates(path[n - 3]));
                let p3 = p2.drop_last();
                assert(escaped_workspace(p2) =~= escaped_workspace(p3).push(path[n - 3]));
                assert(path[n - 3] != '-');
            }
        }
    }
}

/// Two different workspaces get different file names, unless they differ only in
/// which separator they use. (Paths whose dashes can be taken for an escaped
/// separator are left out: `/a` and `---a` escape alike.)
pub proof fn law_escaping_keeps_workspaces_apart(a: Seq<char>, b: Seq<char>)
    requires
        dashes_stand_apart(a),
        dashes_stand_apart(b),
        escaped_workspace(a) == escaped_workspace(b),
    ensures
        same_but_for_separators(a, b),
    decreases a.len() + b.len(),
{
    lemma_separators();
    let ea = escaped_workspace(a);
    let eb = escaped_workspace(b);
    if a.len() == 0 || b.len() == 0 {
        if a.len() > 0 {
            assert(ea.len() > 0);
        }
        if b.len() > 0 {
            assert(eb.len() > 0);
        }
    } else {
        let fa = a.drop_last();
        let fb = b.drop_last();
        let la = a.last();
        let lb = b.last();
        if separates(la) != separates(lb) {
            if separates(la) {
                lemma_tail_of_dashes(b);
                assert(ea =~= escaped_workspace(fa) + seq!['-', '-', '-']);
                assert(ea[ea.len() - 3] == '-');
            } else {
                lemma_tail_of_dashes(a);
                assert(eb =~= escaped_workspace(fb) + seq!['-', '-', '-']);
                assert(eb[eb.len() - 3] == '-');
            }
            assert(false);
        }
        if separates(la) {
            assert(ea =~= escaped_workspace(fa) + seq!['-', '-', '-']);
            assert(eb =~= escaped_workspace(fb) + seq!['-', '-', '-']);
            assert(escaped_workspace(fa) =~= ea.take(ea.len() - 3));
            assert(escaped_workspace(fb) =~= eb.take(eb.len() - 3));
        } else {
            assert(ea =~= escaped_workspace(fa).push(la));
            assert(eb =~= escaped_workspace(fb).push(lb));
            assert(ea.last() == la && eb.last() == lb);
            assert(escaped_workspace(fa) =~= ea.drop_last());
            assert(escaped_workspace(fb) =~= eb.drop_last());
        }
        assert(dashes_stand_apart(fa)) by {
            assert forall|i: int| #![trigger fa[i]] 0 <= i < fa.len() implies fa[i] == a[i] by {}
        }
        assert(dashes_stand_apart(fb)) by {
            assert forall|i: int| #![trigger fb[i]] 0 <= i < fb.len() implies fb[i] == b[i] by {}
        }
        law_escaping_keeps_workspaces_apart(fa, fb);
        assert forall|i: int| 0 <= i < a.len() implies #[trigger] a[i] == b[i] || (separates(a[i])
            && separates(b[i])) by {
            if i < fa.len() {
                assert(fa[i] == a[i] && fb[i] == b[i]);
            }
        }
    }
}

/// Where a shell stands while it reads a command line.
pub enum LineMode {
    /// Outside of quotes.
    Bare,
    /// Inside single quotes.
    Single,
    /// Inside double quotes.
    Double,
    /// After a double quote inside double quotes, which `cmd.exe` may double.
    Closing,
}

/// What a shell has read of a command line: where it stands, the word that it is
/// reading, if any, and the words before that.
pub struct LineRead {
    pub mode: LineMode,
    pub word: Option<Seq<char>>,
    pub words: Seq<Seq<char>>,
}

impl LineRead {
    /// Nothing read yet.
    pub open spec fn start() -> LineRead {
        LineRead { mode: LineMode::Bare, word: None, words: Seq::empty() }
    }

    /// The word so far.
    pub open spec fn so_far(self) -> Seq<char> {
        match self.word {
            Some(word) => word,
            None => Seq::empty(),
        }
    }

    /// One more character of the word, read in the given mode.
    pub open spec fn with(self, mode: LineMode, c: char) -> LineRead {
        LineRead { mode, word: Some(self.so_far().push(c)), ..self }
    }

    /// A quote that belongs to the word but is no character of it.
    pub open spec fn turn(self, mode: LineMode) -> LineRead {
        LineRead { mode, word: Some(self.so_far()), ..self }
    }

    /// The end of the word, if there is one.
    pub open spec fn end(self) -> LineRead {
        match self.word {
            Some(word) => LineRead {
                mode: LineMode::Bare,
                word: None,
                words: self.words.push(word),
            },
            None => LineRead { mode: LineMode::Bare, ..self },
        }
    }

    /// What is read after one more character.
    pub open spec fn read(self, style: ShellStyle, c: char) -> LineRead {
        match (style, self.mode) {
            (ShellStyle::Posix, LineMode::Single) => if c == '\'' {
                self.turn(LineMode::Bare)
            } else {
                self.with(LineMode::Single, c)
            },
            (ShellStyle::Posix, LineMode::Double) => if c == '"' {
                self.turn(LineMode::Bare)
            } else {
                self.with(LineMode::Double, c)
            },
            (ShellStyle::Posix, _) => if c == ' ' {
                self.end()
            } else if c == '\'' {
                self.turn(LineMode::Single)
            } else if c == '"' {
                self.turn(LineMode::Double)
            } else {
                self.with(LineMode::Bare, c)
            },
            (ShellStyle::Cmd, LineMode::Double) => if c == '"' {
                self.turn(LineMode::Closing)
            } else {
                self.with(LineMode::Double, c)
            },
            (ShellStyle::Cmd, LineMode::Closing) => if c == '"' {
                self.with(LineMode::Double, c)
            } else if c == ' ' {
                self.end()
            } else {
                self.with(LineMode::Bare, c)
            },
            (ShellStyle::Cmd, _) => if c == ' ' {
                self.end()
            } else if c == '"' {
                self.turn(LineMode::Double)
            } else {
                self.with(LineMode::Bare, c)
            },
        }
    }

    /// What is read after more text.
    pub open spec fn read_all(self, style: ShellStyle, text: Seq<char>) -> LineRead
        decreases text.len(),
    {
        if text.len() == 0 {
            self
        } else {
            self.read_all(style, text.drop_last()).read(style, text.last())
        }
    }
}

/// The words of a command line.
pub open spec fn line_words(style: ShellStyle, line: Seq<char>) -> Seq<Seq<char>> {
    LineRead::start().read_all(style, line).end().words
}

proof fn lemma_read_push(at: LineRead, style: ShellStyle, text: Seq<char>, c: char)
    ensures
        at.read_all(style, text.push(c)) == at.read_all(style, text).read(style, c),
{
    assert(text.push(c).drop_last() =~= text);
}

proof fn lemma_read_one(at: LineRead, style: ShellStyle, c: char)
    ensures
        at.read_all(style, seq![c]) == at.read(style, c),
{
    assert(seq![c] =~= Seq::<char>::empty().push(c));
    lemma_read_push(at, style, Seq::empty(), c);
}

proof fn lemma_read_concat(at: LineRead, style: ShellStyle, a: Seq<char>, b: Seq<char>)
    ensures
        at.read_all(style, a + b) == at.read_all(style, a).read_all(style, b),
    decreases b.len(),
{
    if b.len() == 0 {
        assert(a + b =~= a);
    } else {
        lemma_read_concat(at, style, a, b.drop_last());
        assert((a + b).drop_last() =~= a + b.drop_last());
        assert((a + b).last() == b.last());
    }
}

/// A text between quotes is read up to its end as it is, inside the quotes.
proof fn lemma_read_inside(at: LineRead, style: ShellStyle, s: Seq<char>)
    requires
        at.word == Some(Seq::<char>::empty()),
        at.mode == (match style {
            ShellStyle::Posix => LineMode::Single,
            ShellStyle::Cmd => LineMode::Double,
        }),
    ensures
        at.read_all(
            style,
            match style {
                ShellStyle::Posix => replaced(s, "'"@, "'\"'\"'"@),
                ShellStyle::Cmd => replaced(s, "\""@, "\"\""@),
            },
        ) == (LineRead { word: Some(s), ..at }),
    decreases s.len(),
{
    reveal_strlit("'");
    reveal_strlit("'\"'\"'");
    reveal_strlit("\"");
    reveal_strlit("\"\"");
    let q = "'"@;
    let d = "\""@;
    assert("'\"'\"'"@ =~= seq!['\'', '"', '\'', '"', '\'']);
    assert("\"\""@ =~= seq!['"', '"']);
    assert forall|c: char| #[trigger] q.contains(c) == (c == '\'') by {
        assert(q[0] == '\'');
    }
    assert forall|c: char| #[trigger] d.contains(c) == (c == '"') by {
        assert(d[0] == '"');
    }
    if s.len() == 0 {
        assert(s =~= Seq::<char>::empty());
    } else {
        let front = s.drop_last();
        let c = s.last();
        lemma_read_inside(at, style, front);
        assert(front.push(c) =~= s);
        match style {
            ShellStyle::Posix => {
                let before = replaced(front, q, "'\"'\"'"@);
                let text = replaced(s, q, "'\"'\"'"@);
                if c == '\'' {
                    let l1 = before.push('\'');
                    let l2 = l1.push('"');
                    let l3 = l2.push('\'');
                    let l4 = l3.push('"');
                    assert(text =~= l4.push('\''));
                    lemma_read_push(at, style, before, '\'');
                    lemma_read_push(at, style, l1, '"');
                    lemma_read_push(at, style, l2, '\'');
                    lemma_read_push(at, style, l3, '"');
                    lemma_read_push(at, style, l4, '\'');
                } else {
                    assert(text =~= before.push(c));
                    lemma_read_push(at, style, before, c);
                }
            },
            ShellStyle::Cmd => {
                let before = replaced(front, d, "\"\""@);
                let text = replaced(s, d, "\"\""@);
                if c == '"' {
                    let l1 = before.push('"');
                    assert(text =~= l1.push('"'));
                    lemma_read_push(at, style, before, '"');
                    lemma_read_push(at, style, l1, '"');
                } else {
                    assert(text =~= before.push(c));
                    lemma_read_push(at, style, before, c);
                }
            },
        }
    }
}

/// A quoted text at the start of a word is read as that text, with the quotes closed.
proof fn lemma_read_quoted(at: LineRead, style: ShellStyle, s: Seq<char>)
    requires
        at.mode == LineMode::Bare,
        at.word is None,
    ensures
        at.read_all(style, quoted(style, s)) == (LineRead {
            mode: match style {
                ShellStyle::Posix => LineMode::Bare,
                ShellStyle::Cmd => LineMode::Closing,
            },
            word: Some(s),
            words: at.words,
        }),
{
    reveal_strlit("'");
    reveal_strlit("\"");
    assert("'"@ =~= seq!['\'']);
    assert("\""@ =~= seq!['"']);
    match style {
        ShellStyle::Posix => {
            let inside = replaced(s, "'"@, "'\"'\"'"@);
            lemma_read_one(at, style, '\'');
            let opened = at.read(style, '\'');
            lemma_read_inside(opened, style, s);
            lemma_read_concat(at, style, "'"@, inside);
            lemma_read_push(at, style, "'"@ + inside, '\'');
            assert(quoted(style, s) =~= ("'"@ + inside).push('\''));
        },
        ShellStyle::Cmd => {
            let inside = replaced(s, "\""@, "\"\""@);
            lemma_read_one(at, style, '"');
            let opened = at.read(style, '"');
            lemma_read_inside(opened, style, s);
            lemma_read_concat(at, style, "\""@, inside);
            lemma_read_push(at, style, "\""@ + inside, '"');
            assert(quoted(style, s) =~= ("\""@ + inside).push('"'));
        },
    }
}

/// Tells whether a text holds no blank and no quote.
pub open spec fn is_plain(text: Seq<char>) -> bool {
    forall|i: int|
        0 <= i < text.len() ==> #[trigger] text[i] != ' ' && text[i] != '\'' && text[i] != '"'
}

/// A plain text at the start of a word is read as it is.
proof fn lemma_read_plain(at: LineRead, style: ShellStyle, text: Seq<char>)
    requires
        at.mode == LineMode::Bare,
        at.word is None,
        is_plain(text),
        text.len() > 0,
    ensures
        at.read_all(style, text) == (LineRead { word: Some(text), ..at }),
    decreases text.len(),
{
    let front = text.drop_last();
    assert(text[text.len() - 1] == text.last());
    assert(front.push(text.last()) =~= text);
    if front.len() == 0 {
        assert(front =~= Seq::<char>::empty());
        assert(at.read_all(style, front) == at);
        assert(at.so_far() =~= front);
    } else {
        assert forall|i: int| 0 <= i < front.len() implies #[trigger] front[i] != ' ' && front[i]
            != '\'' && front[i] != '"' by {
            assert(front[i] == text[i]);
        }
        lemma_read_plain(at, style, front);
    }
}

/// A shell that reads a quoted text gets the text back as one word.
pub proof fn law_quoting_keeps_the_text(style: ShellStyle, s: Seq<char>)
    ensures
        line_words(style, quoted(style, s)) == seq![s],
{
    lemma_read_quoted(LineRead::start(), style, s);
    assert(line_words(style, quoted(style, s)) =~= seq![s]);
}

/// A shell that runs the marker command starts the program with the subcommand, the
/// capture file and the lock file, whatever characters their paths hold.
pub proof fn law_marker_runs_the_capture(
    style: ShellStyle,
    exe: Seq<char>,
    capture_path: Seq<char>,
    lock_path: Seq<char>,
)
    ensures
        line_words(style, marker_text(style, exe, capture_path, lock_path)) == seq![
            exe,
            "internal"@,
            "bob-hook-capture"@,
            capture_path,
            "--ancestor-lock"@,
            lock_path,
        ],
{
    reveal_strlit(" internal bob-hook-capture ");
    reveal_strlit(" --ancestor-lock ");
    reveal_strlit("internal");
    reveal_strlit("bob-hook-capture");
    reveal_strlit("--ancestor-lock");
    let blank = seq![' '];
    let middle = " internal bob-hook-capture "@;
    let option = " --ancestor-lock "@;
    assert(middle =~= blank + "internal"@ + blank + "bob-hook-capture"@ + blank);
    assert(option =~= blank + "--ancestor-lock"@ + blank);
    let a0 = LineRead::start();
    lemma_read_quoted(a0, style, exe);
    let a1 = a0.read_all(style, quoted(style, exe));
    lemma_read_one(a1, style, ' ');
    let a2 = a1.read_all(style, blank);
    lemma_read_plain(a2, style, "internal"@);
    let a3 = a2.read_all(style, "internal"@);
    lemma_read_one(a3, style, ' ');
    let a4 = a3.read_all(style, blank);
    lemma_read_plain(a4, style, "bob-hook-capture"@);
    let a5 = a4.read_all(style, "bob-hook-capture"@);
    lemma_read_one(a5, style, ' ');
    let a6 = a5.read_all(style, blank);
    lemma_read_quoted(a6, style, capture_path);
    let a7 = a6.read_all(style, quoted(style, capture_path));
    lemma_read_one(a7, style, ' ');
    let a8 = a7.read_all(style, blank);
    lemma_read_plain(a8, style, "--ancestor-lock"@);
    let a9 = a8.read_all(style, "--ancestor-lock"@);
    lemma_read_one(a9, style, ' ');
    let a10 = a9.read_all(style, blank);
    lemma_read_quoted(a10, style, lock_path);
    let a11 = a10.read_all(style, quoted(style, lock_path));

    let t1 = quoted(style, exe);
    let t2 = t1 + middle;
    let t3 = t2 + quoted(style, capture_path);
    let t4 = t3 + option;
    lemma_read_concat(a0, style, t1, middle);
    lemma_read_concat(a1, style, blank + "internal"@ + blank + "bob-hook-capture"@, blank);
    lemma_read_concat(a1, style, blank + "internal"@ + blank, "bob-hook-capture"@);
    lemma_read_concat(a1, style, blank + "internal"@, blank);
    lemma_read_concat(a1, style, blank, "internal"@);
    lemma_read_concat(a0, style, t2, quoted(style, capture_path));
    lemma_read_concat(a0, style, t3, option);
    lemma_read_concat(a7, style, blank + "--ancestor-lock"@, blank);
    lemma_read_concat(a7, style, blank, "--ancestor-lock"@);
    lemma_read_concat(a0, style, t4, quoted(style, lock_path));
    assert(marker_text(style, exe, capture_path, lock_path) =~= t4 + quoted(style, lock_path));
    assert(line_words(style, marker_text(style, exe, capture_path, lock_path)) =~= seq![
        exe,
        "internal"@,
        "bob-hook-capture"@,
        capture_path,
        "--ancestor-lock"@,
        lock_path,
    ]);
}

/// Two markers are the same only where the program and both files are the same, so
/// that one workspace's marker is never taken for another's.
pub proof fn law_markers_tell_workspaces_apart(
    style: ShellStyle,
    a: (Seq<char>, Seq<char>, Seq<char>),
    b: (Seq<char>, Seq<char>, Seq<char>),
)
    requires
        marker_text(style, a.0, a.1, a.2) == marker_text(style, b.0, b.1, b.2),
    ensures
        a == b,
{
    law_marker_runs_the_capture(style, a.0, a.1, a.2);
    law_marker_runs_the_capture(style, b.0, b.1, b.2);
    let x = line_words(style, marker_text(style, a.0, a.1, a.2));
    let y = line_words(style, marker_text(style, b.0, b.1, b.2));
    assert(x[0] == a.0 && y[0] == b.0);
    assert(x[3] == a.1 && y[3] == b.1);
    assert(x[5] == a.2 && y[5] == b.2);
}

} // verus!
