//! The shell dialects that the formatter can be asked to target, and how a
//! script's dialect is told from its path and its first line.

use crate::text::{
    ends_with, first_index, first_line, first_line_of, has_suffix, index_of, last_index,
    last_index_of, lemma_first_index_unique, lemma_trim_push, push_arg, same_text, spells, trim,
    trimmed,
};
use vstd::prelude::*;
use vstd::slice::slice_subrange;

verus! {

/// A shell language family.
#[derive(Debug, Clone, Copy, PartialEq, Eq, Structural)]
pub enum LanguageVariant {
    Posix,
    Bash,
    Mksh,
    Bats,
}

/// What a line says after the interpreter mark `#!`, without the white space around it.
pub open spec fn shebang_command(line: Seq<char>) -> Option<Seq<char>> {
    if line.len() >= 2 && line[0] == '#' && line[1] == '!' {
        Some(trim(line.skip(2)))
    } else {
        None
    }
}

/// The text before the first space of `s`.
pub open spec fn token(s: Seq<char>) -> Seq<char> {
    s.take(first_index(s, ' '))
}

/// The text after the first space of `s`, if it holds one.
pub open spec fn after_token(s: Seq<char>) -> Option<Seq<char>> {
    if first_index(s, ' ') < s.len() {
        Some(s.skip(first_index(s, ' ') + 1))
    } else {
        None
    }
}

/// The text after the last `/` of `path`, if it holds one.
pub open spec fn base_name(path: Seq<char>) -> Option<Seq<char>> {
    if last_index(path, '/') >= 0 {
        Some(path.skip(last_index(path, '/') + 1))
    } else {
        None
    }
}

/// The name of the shell that an interpreter command runs. Its tokens are separated by
/// single spaces. Where the first token ends in `/env`, the shell is the second token;
/// otherwise it is what follows the last `/` of the first token.
pub open spec fn shell_name(command: Seq<char>) -> Option<Seq<char>> {
    let bin = token(command);
    if ends_with(bin, "/env"@) {
        match after_token(command) {
            Some(rest) => Some(token(rest)),
            None => None,
        }
    } else {
        base_name(bin)
    }
}

/// The view of a text that may be missing.
pub open spec fn text_view(text: Option<&str>) -> Option<Seq<char>> {
    match text {
        Some(t) => Some(t@),
        None => None,
    }
}

impl LanguageVariant {
    /// The canonical lower-case name of the dialect.
    pub open spec fn name(self) -> Seq<char> {
        match self {
            LanguageVariant::Posix => "posix"@,
            LanguageVariant::Bash => "bash"@,
            LanguageVariant::Mksh => "mksh"@,
            LanguageVariant::Bats => "bats"@,
        }
    }

    /// The arguments that select this dialect.
    pub open spec fn args(self) -> Seq<Seq<char>> {
        seq!["-ln"@, self.name()]
    }

    /// The dialect of the shell called `name`.
    pub open spec fn of_shell(name: Seq<char>) -> Option<LanguageVariant> {
        if name == "sh"@ {
            Some(LanguageVariant::Posix)
        } else if name == "bash"@ {
            Some(LanguageVariant::Bash)
        } else if name == "mksh"@ {
            Some(LanguageVariant::Mksh)
        } else {
            None
        }
    }

    /// The dialect that the first line of `content` names as the interpreter. The
    /// line ends before the first line feed.
    pub open spec fn of_shebang(content: Seq<char>) -> Option<LanguageVariant> {
        match shebang_command(first_line(content)) {
            Some(command) => match shell_name(command) {
                Some(name) => Self::of_shell(name),
                None => None,
            },
            None => None,
        }
    }

    /// The dialect of a file with the given extension and content: `Bats` for the
    /// extension `bat`, whatever the content; otherwise what the content's first line names.
    pub open spec fn of_path(extension: Option<Seq<char>>, content: Option<Seq<char>>) -> Option<
        LanguageVariant,
    > {
        if extension == Some("bat"@) {
            Some(LanguageVariant::Bats)
        } else {
            match content {
                Some(text) => Self::of_shebang(text),
                None => None,
            }
        }
    }

    /// The canonical lower-case name of the dialect, as the formatter takes it.
    pub fn as_str(&self) -> (name: &'static str)
        ensures
            name@ == self.name(),
    {
        match self {
            LanguageVariant::Posix => "posix",
            LanguageVariant::Bash => "bash",
            LanguageVariant::Mksh => "mksh",
            LanguageVariant::Bats => "bats",
        }
    }

    /// Appends `-ln` and the dialect's name to `buffer`.
    pub fn generate_args(&self, buffer: &mut Vec<String>)
        ensures
            final(buffer).deep_view() == old(buffer).deep_view() + self.args(),
    {
        push_arg(buffer, "-ln");
        push_arg(buffer, self.as_str());
        assert(buffer.deep_view() =~= old(buffer).deep_view() + self.args());
    }

    /// The dialect of the shell called `name`.
    pub fn from_shell(name: &[char]) -> (variant: Option<Self>)
        ensures
            variant == Self::of_shell(name@),
    {
        if spells(name, "sh") {
            Some(LanguageVariant::Posix)
        } else if spells(name, "bash") {
            Some(LanguageVariant::Bash)
        } else if spells(name, "mksh") {
            Some(LanguageVariant::Mksh)
        } else {
            None
        }
    }

    /// The dialect that the first line of `content` names as the interpreter, if it
    /// starts with `#!` and names a shell that is known.
    pub fn from_shebang(content: &str) -> (variant: Option<Self>)
        ensures
            variant == Self::of_shebang(content@),
    {
        let line = first_line_of(content);
        if line.len() < 2 || line[0] != '#' || line[1] != '!' {
            return None;
        }
        assert(line@.skip(2) == line@.subrange(2, line@.len() as int));
        let command = trimmed(slice_subrange(line.as_slice(), 2, line.len()));
        match shell_of(command) {
            Some(name) => Self::from_shell(name),
            None => None,
        }
    }

    /// The dialect that the extension alone decides, if it does.
    pub fn from_extension(extension: Option<&str>) -> (variant: Option<Self>)
        ensures
            variant == (if text_view(extension) == Some("bat"@) {
                Some(LanguageVariant::Bats)
            } else {
                None
            }),
    {
        match extension {
            Some(ext) => if same_text(ext, "bat") {
                Some(LanguageVariant::Bats)
            } else {
                None
            },
            None => None,
        }
    }

    /// The dialect of a script, told from the extension of its path and from its
    /// content; `content` is `None` where the file could not be read.
    pub fn from_path(extension: Option<&str>, content: Option<&str>) -> (variant: Option<Self>)
        ensures
            variant == Self::of_path(text_view(extension), text_view(content)),
    {
        match Self::from_extension(extension) {
            Some(variant) => Some(variant),
            None => match content {
                Some(text) => Self::from_shebang(text),
                None => None,
            },
        }
    }
}

/// The name of the shell that the interpreter command `command` runs.
pub fn shell_of(command: &[char]) -> (name: Option<&[char]>)
    ensures
        match name {
            Some(n) => shell_name(command@) == Some(n@),
            None => shell_name(command@) is None,
        },
{
    let end = index_of(command, ' ');
    let bin = slice_subrange(command, 0, end);
    if has_suffix(bin, "/env") {
        if end < command.len() {
            let rest = slice_subrange(command, end + 1, command.len());
            let stop = index_of(rest, ' ');
            Some(slice_subrange(rest, 0, stop))
        } else {
            None
        }
    } else {
        match last_index_of(bin, '/') {
            Some(slash) => Some(slice_subrange(bin, slash + 1, bin.len())),
            None => None,
        }
    }
}

/// Whether the first line ends in a line feed alone or in a carriage return and a
/// line feed, it names the same dialect: the carriage return is white space at the
/// end of the command.
pub proof fn lemma_line_break_style(line: Seq<char>, rest: Seq<char>)
    requires
        !line.contains('\n'),
    ensures
        LanguageVariant::of_shebang(line + seq!['\r', '\n'] + rest) == LanguageVariant::of_shebang(
            line + seq!['\n'] + rest,
        ),
{
    let unix = line + seq!['\n'] + rest;
    let dos = line + seq!['\r', '\n'] + rest;
    assert forall|j: int| 0 <= j < line.len() implies line[j] != '\n' by {
        if line[j] == '\n' {
            assert(line.contains('\n'));
        }
    }
    lemma_first_index_unique(unix, '\n', line.len() as int);
    lemma_first_index_unique(dos, '\n', line.len() as int + 1);
    assert(first_line(unix) =~= line);
    assert(first_line(dos) =~= line.push('\r'));
    if line.len() >= 2 {
        assert(line.push('\r').skip(2) =~= line.skip(2).push('\r'));
        lemma_trim_push(line.skip(2), '\r');
    }
}

impl AsRef<str> for LanguageVariant {
    fn as_ref(&self) -> (name: &str)
        ensures
            name@ == self.name(),
    {
        self.as_str()
    }
}

impl Default for LanguageVariant {
    fn default() -> (variant: Self)
        ensures
            variant == LanguageVariant::Bash,
    {
        LanguageVariant::Bash
    }
}

} // verus!
