//! The command interpreter: splitting a line into words, and what each
//! command does to the working directory and the file system. It prints
//! nothing: every command yields a reply, which the console code renders.

use vstd::prelude::*;
use vstd::string::StrSliceExecFns;
use crate::vfs::name_order::{name_rank, NameRank};
use crate::vfs::ops::{vfs_create, vfs_mkdir, vfs_readdir, Vfs, VfsState};
use crate::vfs::path::{path_chars, SEPARATOR};
use crate::vfs::ramfs::name_views;
use crate::vfs::{FileType, VfsError};

verus! {

/// The characters that separate words: those with the Unicode property
/// `White_Space`.
pub open spec fn spec_is_space(c: char) -> bool {
    let n = c as u32;
    ||| 0x09 <= n <= 0x0D
    ||| n == 0x20
    ||| n == 0x85
    ||| n == 0xA0
    ||| n == 0x1680
    ||| 0x2000 <= n <= 0x200A
    ||| n == 0x2028
    ||| n == 0x2029
    ||| n == 0x202F
    ||| n == 0x205F
    ||| n == 0x3000
}

/// Whether `c` separates words.
#[verifier::when_used_as_spec(spec_is_space)]
pub fn is_space(c: char) -> (b: bool)
    ensures
        b == spec_is_space(c),
{
    let n = c as u32;
    (0x09 <= n && n <= 0x0D) || n == 0x20 || n == 0x85 || n == 0xA0 || n == 0x1680 || (0x2000 <= n
        && n <= 0x200A) || n == 0x2028 || n == 0x2029 || n == 0x202F || n == 0x205F || n == 0x3000
}

/// The end of the word that holds position `i`: the first position from
/// `i` on that holds a space, or the line's length.
pub open spec fn word_end(line: Seq<char>, i: int) -> int
    decreases line.len() - i,
{
    if 0 <= i < line.len() && !spec_is_space(line[i]) {
        word_end(line, i + 1)
    } else {
        i
    }
}

/// A word that starts at `i` ends behind `i` and within the line.
pub proof fn lemma_word_end(line: Seq<char>, i: int)
    requires
        0 <= i <= line.len(),
    ensures
        i <= word_end(line, i) <= line.len(),
        i < line.len() && !spec_is_space(line[i]) ==> i < word_end(line, i),
    decreases line.len() - i,
{
    if i < line.len() && !spec_is_space(line[i]) {
        lemma_word_end(line, i + 1);
    }
}

/// The words of `line` from position `i` on: the maximal runs of
/// characters that are no spaces.
pub open spec fn words_from(line: Seq<char>, i: int) -> Seq<Seq<char>>
    decreases line.len() - i,
{
    if !(0 <= i < line.len()) {
        Seq::empty()
    } else if spec_is_space(line[i]) {
        words_from(line, i + 1)
    } else {
        let end = word_end(line, i);
        proof {
            lemma_word_end(line, i);
        }
        seq![line.subrange(i, end)] + words_from(line, end)
    }
}

/// The words of `line`.
pub open spec fn words(line: Seq<char>) -> Seq<Seq<char>> {
    words_from(line, 0)
}

/// Splits `line` into its words.
pub fn split_words(line: &str) -> (found: Vec<String>)
    ensures
        name_views(found@) == words(line@),
{
    let chars = path_chars(line);
    let n = chars.len();
    let mut found: Vec<String> = Vec::new();
    let mut i: usize = 0;
    while i < n
        invariant
            chars@ == line@,
            n == chars@.len(),
            i <= n,
            words(line@) == name_views(found@) + words_from(line@, i as int),
        decreases n - i,
    {
        if is_space(chars[i]) {
            i += 1;
        } else {
            let start = i;
            proof {
                lemma_word_end(line@, start as int);
            }
            while i < n && !is_space(chars[i])
                invariant
                    chars@ == line@,
                    n == chars@.len(),
                    start <= i <= n,
                    word_end(line@, start as int) == word_end(line@, i as int),
                decreases n - i,
            {
                i += 1;
            }
            let word = line.substring_char(start, i).to_owned();
            let ghost before = name_views(found@);
            found.push(word);
            proof {
                let rest = words_from(line@, i as int);
                assert(name_views(found@) =~= before.push(word@));
                assert(before + (seq![word@] + rest) =~= before.push(word@) + rest);
            }
        }
    }
    assert(name_views(found@) + Seq::<Seq<char>>::empty() =~= name_views(found@));
    found
}

/// The commands that create an entry or need a path.
#[derive(Debug, Clone, Copy, PartialEq, Eq, Structural)]
pub enum PathCommand {
    Ls,
    Mkdir,
    Touch,
}

/// What a command line yields.
#[derive(Debug, PartialEq, Eq)]
pub enum ShellReply {
    /// An empty line: nothing to say.
    Nothing,
    /// The list of commands.
    Help,
    /// The names in a directory, which has some.
    Listing(Vec<String>),
    /// The directory has no entries.
    EmptyDirectory,
    /// The working directory.
    WorkingDirectory(String),
    /// The working directory is now this path.
    Changed(String),
    /// `cd` takes absolute paths only.
    NotAbsolute,
    /// The directory with this path was created.
    CreatedDirectory(String),
    /// The file with this path was created.
    CreatedFile(String),
    /// The command failed in the file system.
    Failed(PathCommand, VfsError),
    /// The command needs a path.
    MissingPath(PathCommand),
    /// The words to print, separated by single spaces.
    Echo(Vec<String>),
    /// Clear the screen.
    Clear,
    /// There is no command with this name.
    Unknown(String),
}

/// The shell: it remembers the working directory.
pub struct Shell {
    cwd: String,
}

impl Shell {
    /// The working directory.
    pub closed spec fn view(&self) -> Seq<char> {
        self.cwd@
    }

    /// The path that `ls` lists: its argument, or the working directory.
    pub open spec fn ls_target(cwd: Seq<char>, w: Seq<Seq<char>>) -> Seq<char> {
        if w.len() > 1 {
            w[1]
        } else {
            cwd
        }
    }

    /// The working directory after the command with the words `w`: only
    /// `cd` changes it, to its argument if that starts with `/`, and to
    /// `/` if it has none.
    pub open spec fn cwd_after(cwd: Seq<char>, w: Seq<Seq<char>>) -> Seq<char> {
        if w.len() > 0 && w[0] == "cd"@ {
            if w.len() == 1 {
                seq![SEPARATOR]
            } else if w[1].len() > 0 && w[1][0] == SEPARATOR {
                w[1]
            } else {
                cwd
            }
        } else {
            cwd
        }
    }

    /// The file system after the command with the words `w`: only `mkdir`
    /// and `touch` with a path change it.
    pub open spec fn vfs_after(vfs: VfsState, w: Seq<Seq<char>>) -> VfsState {
        if w.len() > 1 && w[0] == "mkdir"@ {
            vfs.after_make(w[1], FileType::Directory)
        } else if w.len() > 1 && w[0] == "touch"@ {
            vfs.after_make(w[1], FileType::Regular)
        } else {
            vfs
        }
    }

    /// `reply` is what the command with the words `w` yields in the
    /// working directory `cwd` on the file system `vfs`.
    pub open spec fn replies(reply: ShellReply, cwd: Seq<char>, vfs: VfsState, w: Seq<Seq<char>>)
        -> bool {
        if w.len() == 0 {
            reply is Nothing
        } else if w[0] == "help"@ {
            reply is Help
        } else if w[0] == "ls"@ {
            let target = Self::ls_target(cwd, w);
            match vfs.readdir_error(target) {
                Some(e) => reply == ShellReply::Failed(PathCommand::Ls, e),
                None => match reply {
                    ShellReply::Listing(names) => names@.len() > 0 && vfs.lists(
                        target,
                        name_views(names@),
                    ),
                    ShellReply::EmptyDirectory => vfs.lists(target, Seq::empty()),
                    _ => false,
                },
            }
        } else if w[0] == "pwd"@ {
            reply matches ShellReply::WorkingDirectory(path) && path@ == cwd
        } else if w[0] == "cd"@ {
            if w.len() == 1 {
                reply matches ShellReply::Changed(path) && path@ == seq![SEPARATOR]
            } else if w[1].len() > 0 && w[1][0] == SEPARATOR {
                reply matches ShellReply::Changed(path) && path@ == w[1]
            } else {
                reply is NotAbsolute
            }
        } else if w[0] == "mkdir"@ {
            if w.len() == 1 {
                reply == ShellReply::MissingPath(PathCommand::Mkdir)
            } else {
                match vfs.make(w[1], FileType::Directory) {
                    Ok(_) => reply matches ShellReply::CreatedDirectory(path) && path@ == w[1],
                    Err(e) => reply == ShellReply::Failed(PathCommand::Mkdir, e),
                }
            }
        } else if w[0] == "touch"@ {
            if w.len() == 1 {
                reply == ShellReply::MissingPath(PathCommand::Touch)
            } else {
                match vfs.make(w[1], FileType::Regular) {
                    Ok(_) => reply matches ShellReply::CreatedFile(path) && path@ == w[1],
                    Err(e) => reply == ShellReply::Failed(PathCommand::Touch, e),
                }
            }
        } else if w[0] == "echo"@ {
            reply matches ShellReply::Echo(args) && name_views(args@) == w.skip(1)
        } else if w[0] == "clear"@ {
            reply is Clear
        } else {
            reply matches ShellReply::Unknown(name) && name@ == w[0]
        }
    }

    /// A shell whose working directory is `/`.
    pub fn new() -> (shell: Self)
        ensures
            shell@ == seq![SEPARATOR],
    {
        proof {
            reveal_strlit("/");
            assert("/"@ =~= seq![SEPARATOR]);
        }
        Shell { cwd: "/".to_owned() }
    }

    /// The working directory.
    pub fn cwd(&self) -> (path: &str)
        ensures
            path@ == self@,
    {
        self.cwd.as_str()
    }

    /// Whether `word` is the command `name`.
    fn is_command(word: &String, name: &str) -> (b: bool)
        ensures
            b == (word@ == name@),
    {
        name_rank(word.as_str(), name) == NameRank::Same
    }

    /// Carries out the command line `line` on the file system `vfs`.
    pub fn execute(&mut self, vfs: &mut Vfs, line: &str) -> (reply: ShellReply)
        requires
            old(vfs).wf(),
        ensures
            final(vfs).wf(),
            Self::replies(reply, old(self)@, old(vfs)@, words(line@)),
            final(self)@ == Self::cwd_after(old(self)@, words(line@)),
            final(vfs)@ == Self::vfs_after(old(vfs)@, words(line@)),
    {
        let mut parts = split_words(line);
        let ghost w = words(line@);
        if parts.len() == 0 {
            return ShellReply::Nothing;
        }
        assert(parts@[0]@ == w[0]);
        assert(parts@.len() > 1 ==> parts@[1]@ == w[1]);
        proof {
            reveal_strlit("help");
            reveal_strlit("ls");
            reveal_strlit("pwd");
            reveal_strlit("cd");
            reveal_strlit("mkdir");
            reveal_strlit("touch");
            assert("help"@.len() == 4 && "pwd"@.len() == 3 && "cd"@.len() == 2);
            assert("mkdir"@.len() == 5 && "touch"@.len() == 5 && "ls"@.len() == 2);
            assert("ls"@[0] == 'l' && "cd"@[0] == 'c');
        }
        if Self::is_command(&parts[0], "help") {
            ShellReply::Help
        } else if Self::is_command(&parts[0], "ls") {
            let listed = if parts.len() > 1 {
                vfs_readdir(vfs, parts[1].as_str())
            } else {
                vfs_readdir(vfs, self.cwd.as_str())
            };
            match listed {
                Ok(names) => if names.len() == 0 {
                    assert(name_views(names@) =~= Seq::<Seq<char>>::empty());
                    ShellReply::EmptyDirectory
                } else {
                    ShellReply::Listing(names)
                },
                Err(e) => ShellReply::Failed(PathCommand::Ls, e),
            }
        } else if Self::is_command(&parts[0], "pwd") {
            ShellReply::WorkingDirectory(self.cwd.clone())
        } else if Self::is_command(&parts[0], "cd") {
            if parts.len() == 1 {
                proof {
                    reveal_strlit("/");
                    assert("/"@ =~= seq![SEPARATOR]);
                }
                self.cwd = "/".to_owned();
                ShellReply::Changed("/".to_owned())
            } else {
                let path = parts[1].as_str();
                let chars = path_chars(path);
                if chars.len() > 0 && chars[0] == SEPARATOR {
                    self.cwd = path.to_owned();
                    ShellReply::Changed(path.to_owned())
                } else {
                    ShellReply::NotAbsolute
                }
            }
        } else if Self::is_command(&parts[0], "mkdir") {
            if parts.len() == 1 {
                ShellReply::MissingPath(PathCommand::Mkdir)
            } else {
                match vfs_mkdir(vfs, parts[1].as_str()) {
                    Ok(_) => ShellReply::CreatedDirectory(parts[1].clone()),
                    Err(e) => ShellReply::Failed(PathCommand::Mkdir, e),
                }
            }
        } else if Self::is_command(&parts[0], "touch") {
            if parts.len() == 1 {
                ShellReply::MissingPath(PathCommand::Touch)
            } else {
                match vfs_create(vfs, parts[1].as_str()) {
                    Ok(_) => ShellReply::CreatedFile(parts[1].clone()),
                    Err(e) => ShellReply::Failed(PathCommand::Touch, e),
                }
            }
        } else if Self::is_command(&parts[0], "echo") {
            parts.remove(0);
            assert(name_views(parts@) =~= w.skip(1));
            ShellReply::Echo(parts)
        } else if Self::is_command(&parts[0], "clear") {
            ShellReply::Clear
        } else {
            ShellReply::Unknown(parts[0].clone())
        }
    }
}

} // verus!
