//! Choices of the settings panel.

use vstd::prelude::*;

use crate::text;
use crate::unicode;

verus! {

/// Which key accepts an inline ghost suggestion.
#[derive(Debug, Clone, Copy, PartialEq, Eq, Structural)]
pub enum AcceptKey {
    Right,
    Tab,
    Both,
}

impl Default for AcceptKey {
    fn default() -> (r: AcceptKey)
        ensures
            r == AcceptKey::Both,
    {
        AcceptKey::Both
    }
}

impl AcceptKey {
    pub open spec fn next(self) -> AcceptKey {
        match self {
            AcceptKey::Right => AcceptKey::Tab,
            AcceptKey::Tab => AcceptKey::Both,
            AcceptKey::Both => AcceptKey::Right,
        }
    }

    pub fn label(self) -> (r: &'static str)
        ensures
            r@ == match self {
                AcceptKey::Right => "\u{2192}"@,
                AcceptKey::Tab => "Tab"@,
                AcceptKey::Both => "\u{2192} / Tab"@,
            },
    {
        match self {
            AcceptKey::Right => "\u{2192}",
            AcceptKey::Tab => "Tab",
            AcceptKey::Both => "\u{2192} / Tab",
        }
    }

    /// The choice after this one.
    pub fn cycle(self) -> (r: Self)
        ensures
            r == self.next(),
    {
        match self {
            AcceptKey::Right => AcceptKey::Tab,
            AcceptKey::Tab => AcceptKey::Both,
            AcceptKey::Both => AcceptKey::Right,
        }
    }

    pub fn accepts_right(self) -> (r: bool)
        ensures
            r == (self == AcceptKey::Right || self == AcceptKey::Both),
    {
        self == AcceptKey::Right || self == AcceptKey::Both
    }

    pub fn accepts_tab(self) -> (r: bool)
        ensures
            r == (self == AcceptKey::Tab || self == AcceptKey::Both),
    {
        self == AcceptKey::Tab || self == AcceptKey::Both
    }
}

/// Runtime-selected default executor for new terminal sessions.
#[derive(Debug, Clone, Copy, PartialEq, Eq, Structural)]
pub enum NebulaShell {
    PowerShell,
    Bash,
}

impl Default for NebulaShell {
    fn default() -> (r: NebulaShell)
        ensures
            r == NebulaShell::PowerShell,
    {
        NebulaShell::PowerShell
    }
}

impl NebulaShell {
    pub open spec fn next(self) -> NebulaShell {
        match self {
            NebulaShell::PowerShell => NebulaShell::Bash,
            NebulaShell::Bash => NebulaShell::PowerShell,
        }
    }

    pub open spec fn setting(self) -> Seq<char> {
        match self {
            NebulaShell::PowerShell => "powershell"@,
            NebulaShell::Bash => "bash"@,
        }
    }

    /// The shell that a settings value names, in any case and with surrounding
    /// white space.
    pub open spec fn named(value: Seq<char>) -> Option<NebulaShell> {
        let name = text::ascii_lower(unicode::trimmed(value));
        if name == "powershell"@ || name == "pwsh"@ || name == "ps"@ {
            Some(NebulaShell::PowerShell)
        } else if name == "bash"@ || name == "git-bash"@ || name == "gitbash"@ || name == "wsl"@ {
            Some(NebulaShell::Bash)
        } else {
            None
        }
    }

    pub fn label(self) -> (r: &'static str)
        ensures
            r@ == match self {
                NebulaShell::PowerShell => "PowerShell"@,
                NebulaShell::Bash => "Bash"@,
            },
    {
        match self {
            NebulaShell::PowerShell => "PowerShell",
            NebulaShell::Bash => "Bash",
        }
    }

    /// The value that stands for the shell in the settings file.
    pub fn settings_value(self) -> (r: &'static str)
        ensures
            r@ == self.setting(),
    {
        match self {
            NebulaShell::PowerShell => "powershell",
            NebulaShell::Bash => "bash",
        }
    }

    /// The shell that a settings value names.
    pub fn from_settings(value: &str) -> (r: Option<Self>)
        ensures
            r == NebulaShell::named(value@),
    {
        let name = text::to_ascii_lower(unicode::trim(value).as_str());
        let name: &str = name.as_str();
        if text::str_eq(name, "powershell") || text::str_eq(name, "pwsh") || text::str_eq(
            name,
            "ps",
        ) {
            Some(NebulaShell::PowerShell)
        } else if text::str_eq(name, "bash") || text::str_eq(name, "git-bash") || text::str_eq(
            name,
            "gitbash",
        ) || text::str_eq(name, "wsl") {
            Some(NebulaShell::Bash)
        } else {
            None
        }
    }

    /// The other shell.
    pub fn cycle(self) -> (r: Self)
        ensures
            r == self.next(),
    {
        match self {
            NebulaShell::PowerShell => NebulaShell::Bash,
            NebulaShell::Bash => NebulaShell::PowerShell,
        }
    }
}

/// Cycling goes through every choice and comes back.
pub proof fn law_cycling_comes_back(key: AcceptKey, shell: NebulaShell)
    ensures
        key.next().next().next() == key,
        key.next() != key,
        key.next().next() != key,
        shell.next().next() == shell,
        shell.next() != shell,
{
}

proof fn lemma_plain(s: Seq<char>)
    requires
        forall|i: int|
            0 <= i < s.len() ==> !unicode::whitespace(#[trigger] s[i]) && !('A' <= s[i] <= 'Z'),
    ensures
        unicode::trimmed(s) == s,
        text::ascii_lower(s) == s,
{
    assert(unicode::trim_start(s) == s);
    assert(unicode::trim_end(s) == s);
    assert(text::ascii_lower(s) =~= s);
}

/// What is written into the settings for a shell reads back as that shell.
pub proof fn law_shell_settings_read_back(shell: NebulaShell)
    ensures
        NebulaShell::named(shell.setting()) == Some(shell),
{
    reveal_strlit("powershell");
    reveal_strlit("bash");
    reveal_strlit("pwsh");
    reveal_strlit("ps");
    assert("bash"@.len() == 4);
    assert("powershell"@.len() == 10);
    assert("pwsh"@.len() == 4);
    assert("ps"@.len() == 2);
    assert("bash"@[0] == 'b');
    assert("pwsh"@[0] == 'p');
    lemma_plain("powershell"@);
    lemma_plain("bash"@);
}

} // verus!
