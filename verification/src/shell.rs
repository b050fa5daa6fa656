//! Shell completion scripts and where they are installed.
use vstd::prelude::*;
use crate::text::{chars_of, push_str, string_of};

verus! {

/// The fish completion script.
pub const FISH: &'static str = "\
# nymphalis completions — auto-generated, do not edit
set -l services gelbooru.com desu.uno mangadex.org patreon.com gel gelbu gelbooru desu md mdex mangadex patreon set add-shell-completions version update

# не предлагать файлы по умолчанию
complete -c nymphalis -f

# первый аргумент — сервис или глобальная команда
complete -c nymphalis -n 'not __fish_seen_subcommand_from $services' -a 'gelbooru.com' -d 'Download images from gelbooru'
complete -c nymphalis -n 'not __fish_seen_subcommand_from $services' -a 'desu.uno'     -d 'Download manga from desu.uno'
complete -c nymphalis -n 'not __fish_seen_subcommand_from $services' -a 'mangadex.org' -d 'Download manga from mangadex'
complete -c nymphalis -n 'not __fish_seen_subcommand_from $services' -a 'patreon.com'  -d 'Download media from Patreon'
complete -c nymphalis -n 'not __fish_seen_subcommand_from $services' -a 'set'          -d 'Save a config variable'
complete -c nymphalis -n 'not __fish_seen_subcommand_from $services' -a 'version'      -d 'Show version and platform'
complete -c nymphalis -n 'not __fish_seen_subcommand_from $services' -a 'update'       -d 'Check for updates from GitHub'
complete -c nymphalis -n 'not __fish_seen_subcommand_from $services' -a 'add-shell-completions' -d 'Install shell completions'

# псевдонимы
complete -c nymphalis -n 'not __fish_seen_subcommand_from $services' -a 'gel gelbu gelbooru' -d 'gelbooru.com alias'
complete -c nymphalis -n 'not __fish_seen_subcommand_from $services' -a 'desu'               -d 'desu.uno alias'
complete -c nymphalis -n 'not __fish_seen_subcommand_from $services' -a 'md mdex mangadex'   -d 'mangadex.org alias'
complete -c nymphalis -n 'not __fish_seen_subcommand_from $services' -a 'patreon'            -d 'patreon.com alias'

# подкоманды gelbooru
complete -c nymphalis -n '__fish_seen_subcommand_from gelbooru.com gel gelbu gelbooru' -a 'download' -d 'Download images by tags'
complete -c nymphalis -n '__fish_seen_subcommand_from gelbooru.com gel gelbu gelbooru' -a 'search'   -d 'Search tags'
complete -c nymphalis -n '__fish_seen_subcommand_from gelbooru.com gel gelbu gelbooru' -a 'set'      -d 'Set credentials'

# подкоманды desu.uno
complete -c nymphalis -n '__fish_seen_subcommand_from desu.uno desu' -a 'download' -d 'Download manga or ranobe chapters'
complete -c nymphalis -n '__fish_seen_subcommand_from desu.uno desu' -a 'search'   -d 'Search manga'
complete -c nymphalis -n '__fish_seen_subcommand_from desu.uno desu' -a 'login'    -d 'Save session from browser'

# подкоманды mangadex
complete -c nymphalis -n '__fish_seen_subcommand_from mangadex.org md mdex mangadex' -a 'download' -d 'Download Russian chapters'
complete -c nymphalis -n '__fish_seen_subcommand_from mangadex.org md mdex mangadex' -a 'search'   -d 'Search manga'

# подкоманды patreon
complete -c nymphalis -n '__fish_seen_subcommand_from patreon.com patreon' -a 'download' -d 'Download creator media'
complete -c nymphalis -n '__fish_seen_subcommand_from patreon.com patreon' -a 'show'     -d 'List active subscriptions'
complete -c nymphalis -n '__fish_seen_subcommand_from patreon.com patreon' -a 'login'    -d 'Save session from browser'

# set — переменные
complete -c nymphalis -n '__fish_seen_subcommand_from set' -a 'user_id api_key jobs desu_session desu_proxy patreon_session patreon_proxy'
";

/// The bash completion script.
pub const BASH: &'static str = "\
# nymphalis completions — auto-generated, do not edit
_nymphalis() {
    local cur prev words
    cur=\"${COMP_WORDS[COMP_CWORD]}\"
    prev=\"${COMP_WORDS[COMP_CWORD-1]}\"
    words=(\"${COMP_WORDS[@]}\")

    local services=\"gelbooru.com desu.uno mangadex.org patreon.com gel gelbu gelbooru desu md mdex mangadex patreon set add-shell-completions version update\"

    if [[ ${COMP_CWORD} -eq 1 ]]; then
        COMPREPLY=($(compgen -W \"$services\" -- \"$cur\"))
        return
    fi

    case \"${words[1]}\" in
        gelbooru.com|gel|gelbu|gelbooru)
            COMPREPLY=($(compgen -W \"download search set\" -- \"$cur\")) ;;
        desu.uno|desu)
            COMPREPLY=($(compgen -W \"download search login\" -- \"$cur\")) ;;
        mangadex.org|md|mdex|mangadex)
            COMPREPLY=($(compgen -W \"download search\" -- \"$cur\")) ;;
        patreon.com|patreon)
            COMPREPLY=($(compgen -W \"download show login\" -- \"$cur\")) ;;
        set)
            COMPREPLY=($(compgen -W \"user_id api_key jobs desu_session desu_proxy patreon_session patreon_proxy\" -- \"$cur\")) ;;
    esac
}

complete -F _nymphalis nymphalis
";

/// The zsh completion script.
pub const ZSH: &'static str = "\
#compdef nymphalis
# nymphalis completions — auto-generated, do not edit

local -a services
services=(
  'gelbooru.com:Download images from gelbooru'
  'desu.uno:Download manga from desu.uno'
  'mangadex.org:Download manga from mangadex'
  'patreon.com:Download media from Patreon'
  'gel:gelbooru.com alias' 'gelbu:gelbooru.com alias' 'gelbooru:gelbooru.com alias'
  'desu:desu.uno alias'
  'md:mangadex.org alias' 'mdex:mangadex.org alias' 'mangadex:mangadex.org alias'
  'patreon:patreon.com alias'
  'set:Save a config variable'
  'version:Show version and platform'
  'update:Check for updates from GitHub'
  'add-shell-completions:Install shell completions'
)

local -a gelbooru_cmds=('download:Download images by tags' 'search:Search tags' 'set:Set credentials')
local -a desu_cmds=('download:Download manga or ranobe chapters' 'search:Search manga' 'login:Save session from browser')
local -a mangadex_cmds=('download:Download Russian chapters' 'search:Search manga')
local -a patreon_cmds=('download:Download creator media' 'show:List active subscriptions' 'login:Save session from browser')
local -a set_vars=('user_id' 'api_key' 'jobs' 'desu_session' 'desu_proxy' 'patreon_session' 'patreon_proxy')

if (( CURRENT == 2 )); then
    _describe 'service' services
    return
fi

case \"${words[2]}\" in
    gelbooru.com|gel|gelbu|gelbooru) _describe 'command' gelbooru_cmds ;;
    desu.uno|desu)                   _describe 'command' desu_cmds ;;
    mangadex.org|md|mdex|mangadex)   _describe 'command' mangadex_cmds ;;
    patreon.com|patreon)             _describe 'command' patreon_cmds ;;
    set)                             _values 'variable' $set_vars ;;
esac
";

/// The files completions are installed as: for each of fish, bash and zsh,
/// the shell's name, its system completion path below `destdir` (the
/// packaging root, empty for the live system), and the script.
pub open spec fn spec_completion_targets(destdir: Seq<char>) -> Seq<(Seq<char>, Seq<char>, Seq<char>)> {
    seq![
        ("fish"@, destdir + "/usr/share/fish/vendor_completions.d/nymphalis.fish"@, FISH@),
        ("bash"@, destdir + "/usr/share/bash-completion/completions/nymphalis"@, BASH@),
        ("zsh"@, destdir + "/usr/share/zsh/site-functions/_nymphalis"@, ZSH@),
    ]
}

/// A completion file to write: the shell, its path, its script.
pub struct CompletionTarget {
    pub shell: &'static str,
    pub path: String,
    pub content: &'static str,
}

/// Completion files as plain values.
pub open spec fn target_views(v: Seq<CompletionTarget>) -> Seq<(Seq<char>, Seq<char>, Seq<char>)> {
    v.map_values(|t: CompletionTarget| (t.shell@, t.path@, t.content@))
}

fn target(shell: &'static str, destdir: &str, rel: &str, content: &'static str) -> (t: CompletionTarget)
    ensures
        t.shell@ == shell@,
        t.path@ == destdir@ + rel@,
        t.content@ == content@,
{
    let mut p = chars_of(destdir);
    push_str(&mut p, rel);
    CompletionTarget { shell, path: string_of(p.as_slice()), content }
}

/// The completion files to install below `destdir`.
pub fn completion_targets(destdir: &str) -> (r: Vec<CompletionTarget>)
    ensures
        target_views(r@) == spec_completion_targets(destdir@),
{
    let mut v: Vec<CompletionTarget> = Vec::new();
    v.push(target("fish", destdir, "/usr/share/fish/vendor_completions.d/nymphalis.fish", FISH));
    v.push(target("bash", destdir, "/usr/share/bash-completion/completions/nymphalis", BASH));
    v.push(target("zsh", destdir, "/usr/share/zsh/site-functions/_nymphalis", ZSH));
    assert(target_views(v@) =~= spec_completion_targets(destdir@));
    v
}

} // verus!
