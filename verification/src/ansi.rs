//! Shell-specific color marker tokens.
//!
//! Every escape sequence is wrapped in the zero-width markers of the target
//! shell (`\[ \]` for bash, `%{ %}` for zsh) so that the shell does not count
//! the sequence towards the prompt width.  The library decides only which
//! semantic color role applies to which substring; the sequences themselves
//! are fixed tables.
use crate::bytestr::{ascii_bytes, ascii_seq};
use vstd::prelude::*;

verus! {

/// The shell flavor that determines how escape sequences are wrapped.
#[derive(Clone, Copy, Debug, PartialEq, Eq, Structural)]
pub enum Shell {
    Bash,
    Zsh,
}

impl Default for Shell {
    fn default() -> (r: Self)
        ensures
            r is Zsh,
    {
        Shell::Zsh
    }
}

/// An escape sequence wrapped in the shell's zero-width markers.
pub open spec fn spec_wrap(shell: Shell, inner: Seq<u8>) -> Seq<u8> {
    match shell {
        Shell::Bash => seq![92u8, 91u8] + inner + seq![92u8, 93u8],
        Shell::Zsh => seq![37u8, 123u8] + inner + seq![37u8, 125u8],
    }
}

pub open spec fn spec_reset(shell: Shell) -> Seq<u8> {
    spec_wrap(shell, ascii_seq("\x1b[0m"@))
}

pub open spec fn spec_red(shell: Shell) -> Seq<u8> {
    spec_wrap(shell, ascii_seq("\x1b[31m"@))
}

pub open spec fn spec_red_bold(shell: Shell) -> Seq<u8> {
    spec_wrap(shell, ascii_seq("\x1b[1;31m"@))
}

pub open spec fn spec_yellow_normal(shell: Shell) -> Seq<u8> {
    spec_wrap(shell, ascii_seq("\x1b[0;33m"@))
}

pub open spec fn spec_blue(shell: Shell) -> Seq<u8> {
    spec_wrap(shell, ascii_seq("\x1b[34m"@))
}

pub open spec fn spec_magenta(shell: Shell) -> Seq<u8> {
    spec_wrap(shell, ascii_seq("\x1b[35m"@))
}

pub open spec fn spec_fg_normal(shell: Shell) -> Seq<u8> {
    spec_wrap(shell, ascii_seq("\x1b[0;39m"@))
}

pub open spec fn spec_fg_bold(shell: Shell) -> Seq<u8> {
    spec_wrap(shell, ascii_seq("\x1b[1;39m"@))
}

pub open spec fn spec_fg_dim(shell: Shell) -> Seq<u8> {
    spec_wrap(shell, ascii_seq("\x1b[2;39m"@))
}

pub open spec fn spec_fg_italic(shell: Shell) -> Seq<u8> {
    spec_wrap(shell, ascii_seq("\x1b[3;39m"@))
}

pub open spec fn spec_cyan(shell: Shell) -> Seq<u8> {
    spec_wrap(shell, ascii_seq("\x1b[36m"@))
}

pub open spec fn spec_cyan_bold(shell: Shell) -> Seq<u8> {
    spec_wrap(shell, ascii_seq("\x1b[1;36m"@))
}

impl Shell {
    /// Wrap an escape sequence in this shell's zero-width markers.
    fn wrap(self, inner: &Vec<u8>) -> (r: Vec<u8>)
        ensures
            r@ == spec_wrap(self, inner@),
    {
        let mut out: Vec<u8> = Vec::new();
        match self {
            Shell::Bash => {
                out.push(92);
                out.push(91);
            },
            Shell::Zsh => {
                out.push(37);
                out.push(123);
            },
        }
        crate::bytestr::append_bytes(&mut out, inner);
        match self {
            Shell::Bash => {
                out.push(92);
                out.push(93);
            },
            Shell::Zsh => {
                out.push(37);
                out.push(125);
            },
        }
        proof {
            assert(out@ =~= spec_wrap(self, inner@));
        }
        out
    }

    /// Wrap the bytes of an ASCII escape sequence.
    fn wrapped(self, code: &str) -> (r: Vec<u8>)
        requires
            vstd::string::is_ascii(code),
        ensures
            r@ == spec_wrap(self, ascii_seq(code@)),
    {
        let inner = ascii_bytes(code);
        self.wrap(&inner)
    }

    pub fn reset(self) -> (r: Vec<u8>)
        ensures
            r@ == spec_reset(self),
    {
        proof {
            reveal_strlit("\x1b[0m");
            assert(vstd::string::is_ascii("\x1b[0m"));
        }
        self.wrapped("\x1b[0m")
    }

    pub fn red(self) -> (r: Vec<u8>)
        ensures
            r@ == spec_red(self),
    {
        proof {
            reveal_strlit("\x1b[31m");
            assert(vstd::string::is_ascii("\x1b[31m"));
        }
        self.wrapped("\x1b[31m")
    }

    pub fn red_bold(self) -> (r: Vec<u8>)
        ensures
            r@ == spec_red_bold(self),
    {
        proof {
            reveal_strlit("\x1b[1;31m");
            assert(vstd::string::is_ascii("\x1b[1;31m"));
        }
        self.wrapped("\x1b[1;31m")
    }

    pub fn yellow_normal(self) -> (r: Vec<u8>)
        ensures
            r@ == spec_yellow_normal(self),
    {
        proof {
            reveal_strlit("\x1b[0;33m");
            assert(vstd::string::is_ascii("\x1b[0;33m"));
        }
        self.wrapped("\x1b[0;33m")
    }

    pub fn blue(self) -> (r: Vec<u8>)
        ensures
            r@ == spec_blue(self),
    {
        proof {
            reveal_strlit("\x1b[34m");
            assert(vstd::string::is_ascii("\x1b[34m"));
        }
        self.wrapped("\x1b[34m")
    }

    pub fn magenta(self) -> (r: Vec<u8>)
        ensures
            r@ == spec_magenta(self),
    {
        proof {
            reveal_strlit("\x1b[35m");
            assert(vstd::string::is_ascii("\x1b[35m"));
        }
        self.wrapped("\x1b[35m")
    }

    pub fn fg_normal(self) -> (r: Vec<u8>)
        ensures
            r@ == spec_fg_normal(self),
    {
        proof {
            reveal_strlit("\x1b[0;39m");
            assert(vstd::string::is_ascii("\x1b[0;39m"));
        }
        self.wrapped("\x1b[0;39m")
    }

    pub fn fg_bold(self) -> (r: Vec<u8>)
        ensures
            r@ == spec_fg_bold(self),
    {
        proof {
            reveal_strlit("\x1b[1;39m");
            assert(vstd::string::is_ascii("\x1b[1;39m"));
        }
        self.wrapped("\x1b[1;39m")
    }

    pub fn fg_dim(self) -> (r: Vec<u8>)
        ensures
            r@ == spec_fg_dim(self),
    {
        proof {
            reveal_strlit("\x1b[2;39m");
            assert(vstd::string::is_ascii("\x1b[2;39m"));
        }
        self.wrapped("\x1b[2;39m")
    }

    pub fn fg_italic(self) -> (r: Vec<u8>)
        ensures
            r@ == spec_fg_italic(self),
    {
        proof {
            reveal_strlit("\x1b[3;39m");
            assert(vstd::string::is_ascii("\x1b[3;39m"));
        }
        self.wrapped("\x1b[3;39m")
    }

    pub fn cyan(self) -> (r: Vec<u8>)
        ensures
            r@ == spec_cyan(self),
    {
        proof {
            reveal_strlit("\x1b[36m");
            assert(vstd::string::is_ascii("\x1b[36m"));
        }
        self.wrapped("\x1b[36m")
    }

    pub fn cyan_bold(self) -> (r: Vec<u8>)
        ensures
            r@ == spec_cyan_bold(self),
    {
        proof {
            reveal_strlit("\x1b[1;36m");
            assert(vstd::string::is_ascii("\x1b[1;36m"));
        }
        self.wrapped("\x1b[1;36m")
    }

    /// Parse a shell name given as raw argument bytes.
    pub fn from_arg(s: &Vec<u8>) -> (r: Option<Shell>)
        ensures
            r == spec_shell_from_arg(s@),
    {
        proof {
            reveal_strlit("bash");
            reveal_strlit("Bash");
            reveal_strlit("zsh");
            reveal_strlit("Zsh");
            assert(vstd::string::is_ascii("bash"));
            assert(vstd::string::is_ascii("Bash"));
            assert(vstd::string::is_ascii("zsh"));
            assert(vstd::string::is_ascii("Zsh"));
        }
        if crate::bytestr::bytes_eq(s, &ascii_bytes("bash"))
            || crate::bytestr::bytes_eq(s, &ascii_bytes("Bash")) {
            Some(Shell::Bash)
        } else if crate::bytestr::bytes_eq(s, &ascii_bytes("zsh"))
            || crate::bytestr::bytes_eq(s, &ascii_bytes("Zsh")) {
            Some(Shell::Zsh)
        } else {
            None
        }
    }
}

/// Which shell a name denotes: `bash`/`Bash` and `zsh`/`Zsh` are accepted.
pub open spec fn spec_shell_from_arg(s: Seq<u8>) -> Option<Shell> {
    if s == ascii_seq("bash"@) || s == ascii_seq("Bash"@) {
        Some(Shell::Bash)
    } else if s == ascii_seq("zsh"@) || s == ascii_seq("Zsh"@) {
        Some(Shell::Zsh)
    } else {
        None
    }
}

} // verus!
