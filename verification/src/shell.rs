//! Completion scripts for the shells that are supported.

use vstd::prelude::*;
use vstd::string::*;
use crate::text::{same_text, split, split_on, lemma_split_pieces};

verus! {

/// A shell for which a completion script exists.
#[derive(Clone, Copy, Debug, PartialEq, Eq, Structural)]
pub enum Shell {
    Bash,
    Zsh,
    Fish,
}

pub const BASH_COMPLETION: &'static str = r#"# tempesta completion for bash
_tempesta() {
    local cur prev commands store
    COMPREPLY=()
    cur="${COMP_WORDS[COMP_CWORD]}"
    prev="${COMP_WORDS[COMP_CWORD-1]}"
    commands="add completion config edit get init list move open remove update"
    if [ "$COMP_CWORD" -eq 1 ]; then
        COMPREPLY=( $(compgen -W "$commands" -- "$cur") )
        return 0
    fi
    case "$prev" in
        edit|e|get|g|move|m|mv|open|o|remove|r|rm|update|u|list|l|ls)
            COMPREPLY=( $(compgen -W "$(tempesta list --divisor=' ' 2>/dev/null | cut -d' ' -f1)" -- "$cur") )
            ;;
        completion)
            COMPREPLY=( $(compgen -W "bash zsh fish" -- "$cur") )
            ;;
    esac
    return 0
}
complete -F _tempesta tempesta
"#;

pub const ZSH_COMPLETION: &'static str = r#"#compdef tempesta
# tempesta completion for zsh
_tempesta() {
    local -a commands bookmarks
    commands=(add completion config edit get init list move open remove update)
    if (( CURRENT == 2 )); then
        _describe 'command' commands
        return
    fi
    case "$words[2]" in
        edit|e|get|g|move|m|mv|open|o|remove|r|rm|update|u|list|l|ls)
            bookmarks=(${(f)"$(tempesta list --divisor=' ' 2>/dev/null | cut -d' ' -f1)"})
            _describe 'bookmark' bookmarks
            ;;
        completion)
            _values 'shell' bash zsh fish
            ;;
    esac
}
compdef _tempesta tempesta
"#;

pub const FISH_COMPLETION: &'static str = r#"# tempesta completion for fish
function __tempesta_bookmarks
    tempesta list --divisor=' ' 2>/dev/null | cut -d' ' -f1
end
complete -c tempesta -f
complete -c tempesta -n '__fish_use_subcommand' -a 'add completion config edit get init list move open remove update'
complete -c tempesta -n '__fish_seen_subcommand_from edit e get g move m mv open o remove r rm update u list l ls' -a '(__tempesta_bookmarks)'
complete -c tempesta -n '__fish_seen_subcommand_from completion' -a 'bash zsh fish'
"#;

/// The shell that goes by the name `name`.
pub open spec fn shell_named(name: Seq<char>) -> Option<Shell> {
    if name == "bash"@ {
        Some(Shell::Bash)
    } else if name == "zsh"@ {
        Some(Shell::Zsh)
    } else if name == "fish"@ {
        Some(Shell::Fish)
    } else {
        None
    }
}

/// The shell to write a completion script for: the one named on the command
/// line, else the one that the user's login shell is, by the last name of
/// its path, else bash.
pub open spec fn chosen_shell(login_shell: Option<Seq<char>>, named: Option<Seq<char>>) -> Shell {
    let detected = match login_shell {
        Some(path) => match shell_named(split(path, '/').last()) {
            Some(shell) => shell,
            None => Shell::Bash,
        },
        None => Shell::Bash,
    };
    match named {
        Some(name) => match shell_named(name) {
            Some(shell) => shell,
            None => detected,
        },
        None => detected,
    }
}

impl Shell {
    /// The completion script for this shell.
    pub open spec fn script(self) -> Seq<char> {
        match self {
            Shell::Bash => BASH_COMPLETION@,
            Shell::Zsh => ZSH_COMPLETION@,
            Shell::Fish => FISH_COMPLETION@,
        }
    }

    /// The shell that goes by the name `s`, if it is supported.
    pub fn from_shell_str(s: &str) -> (r: Option<Shell>)
        ensures
            r == shell_named(s@),
    {
        if same_text(s, "bash") {
            Some(Shell::Bash)
        } else if same_text(s, "zsh") {
            Some(Shell::Zsh)
        } else if same_text(s, "fish") {
            Some(Shell::Fish)
        } else {
            None
        }
    }

    /// The completion script for this shell.
    pub fn completion_script(&self) -> (r: &'static str)
        ensures
            r@ == self.script(),
    {
        match self {
            Shell::Bash => BASH_COMPLETION,
            Shell::Zsh => ZSH_COMPLETION,
            Shell::Fish => FISH_COMPLETION,
        }
    }
}

/// The shell to write a completion script for, given the path of the
/// user's login shell and the name on the command line, where there are
/// such.
pub fn select_shell(login_shell: Option<&str>, named: Option<&str>) -> (r: Shell)
    ensures
        r == chosen_shell(login_shell.deep_view(), named.deep_view()),
{
    let detected = match login_shell {
        Some(path) => {
            let mut parts = split_on(path, '/');
            proof {
                lemma_split_pieces(path@, '/');
            }
            let last = parts.pop().unwrap();
            match Shell::from_shell_str(last.as_str()) {
                Some(shell) => shell,
                None => Shell::Bash,
            }
        },
        None => Shell::Bash,
    };
    match named {
        Some(name) => match Shell::from_shell_str(name) {
            Some(shell) => shell,
            None => detected,
        },
        None => detected,
    }
}

} // verus!
