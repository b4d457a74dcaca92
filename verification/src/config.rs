//! The user's configuration: registered model directories and the rules
//! for adding and removing them.
use vstd::prelude::*;
use crate::text;
use crate::models::ollama::join_path;

verus! {

/// The configuration file's contents.
pub struct MelangeConfig {
    /// Registered model directories, in the order they were added.
    pub model_dirs: Vec<String>,
    /// A VPN provider to look for instead of detecting one
    /// ("tailscale", "zerotier", "nebula" or "wireguard").
    pub vpn: Option<String>,
}

/// The configuration as loaded, or an empty one when there is no file.
/// A failure to load (no home directory, an unreadable file, invalid TOML)
/// is handed back unchanged.
pub fn load_config_or_default<E>(loaded: Result<Option<MelangeConfig>, E>) -> (r: Result<MelangeConfig, E>)
    ensures
        match loaded {
            Ok(Some(c)) => r == Ok::<MelangeConfig, E>(c),
            Ok(None) => r matches Ok(d) && d.model_dirs@.len() == 0 && d.vpn is None,
            Err(e) => r == Err::<MelangeConfig, E>(e),
        },
{
    match loaded {
        Ok(Some(c)) => Ok(c),
        Ok(None) => Ok(MelangeConfig { model_dirs: Vec::new(), vpn: None }),
        Err(e) => Err(e),
    }
}

/// Where the directories to scan come from.
#[derive(Debug, Clone, Copy, PartialEq, Eq, Structural)]
pub enum DirSource {
    /// The `--scan` option, for this run only.
    ScanOption,
    /// The configuration file.
    Config,
    /// `~/AI_MODELS/models`, which is then saved to the configuration.
    DefaultDir,
    /// Asked for on first run.
    Prompt,
}

/// The order in which the directories to scan are resolved: the `--scan`
/// option first, then the configured directories, then the default directory
/// when it exists, and only then a prompt.
pub fn dir_source(scan_option: bool, configured_dirs: usize, default_exists: bool) -> (r: DirSource)
    ensures
        r == (if scan_option {
            DirSource::ScanOption
        } else if configured_dirs > 0 {
            DirSource::Config
        } else if default_exists {
            DirSource::DefaultDir
        } else {
            DirSource::Prompt
        }),
{
    if scan_option {
        DirSource::ScanOption
    } else if configured_dirs > 0 {
        DirSource::Config
    } else if default_exists {
        DirSource::DefaultDir
    } else {
        DirSource::Prompt
    }
}

/// `~/rest` expands to `rest` under the home directory (or under "." when
/// there is none); any other path is kept.
pub open spec fn expand_tilde_spec(path: Seq<char>, home: Option<Seq<char>>) -> Seq<char> {
    if text::seq_starts_with(path, "~/"@) {
        join_path(
            match home {
                Some(h) => h,
                None => "."@,
            },
            path.skip(2),
        )
    } else {
        path
    }
}

/// Expands a leading `~/` to the home directory.
pub fn expand_tilde(path: &str, home: Option<&str>) -> (r: String)
    ensures
        r@ == expand_tilde_spec(path@, match home {
            Some(h) => Some(h@),
            None => None,
        }),
{
    let pc = text::chars_of(path);
    let prefix = text::chars_of("~/");
    proof { reveal_strlit("~/"); }
    if !text::chars_start_with(pc.as_slice(), prefix.as_slice()) {
        return String::from_str(path);
    }
    let rest = text::string_of(pc.as_slice().split_at(2).1);
    assert(pc@.subrange(2, pc@.len() as int) == path@.skip(2));
    match home {
        Some(h) => crate::models::ollama::join_path_str(h, rest.as_str()),
        None => crate::models::ollama::join_path_str(".", rest.as_str()),
    }
}

/// What `add_directory` did.
#[derive(Debug, Clone, Copy, PartialEq, Eq, Structural)]
pub enum AddOutcome {
    /// The directory was already registered; nothing changed.
    AlreadyRegistered,
    /// The directory was added; the number of directories now registered.
    Added(usize),
}

/// Whether `c` equals one of `cs`.
pub open spec fn registered(cs: Seq<String>, c: Seq<char>) -> bool {
    exists|i: int| 0 <= i < cs.len() && (#[trigger] cs[i])@ == c
}

fn is_registered(cs: &Vec<String>, c: &str) -> (r: bool)
    ensures
        r == registered(cs@, c@),
{
    let mut i: usize = 0;
    while i < cs.len()
        invariant
            i <= cs.len(),
            forall|j: int| 0 <= j < i ==> (#[trigger] cs@[j])@ != c@,
        decreases cs.len() - i,
    {
        if text::str_eq(cs[i].as_str(), c) {
            return true;
        }
        i += 1;
    }
    false
}

impl MelangeConfig {
    /// Registers the directory whose canonical path is `canonical`, unless a
    /// registered one has the same canonical path. `existing_canonical[i]`
    /// is the canonical path of `model_dirs[i]`.
    pub fn add_directory(&mut self, canonical: &str, existing_canonical: &Vec<String>) -> (r: AddOutcome)
        requires
            old(self).model_dirs.len() < usize::MAX,
        ensures
            registered(existing_canonical@, canonical@) ==> r == AddOutcome::AlreadyRegistered
                && final(self).model_dirs@ == old(self).model_dirs@,
            !registered(existing_canonical@, canonical@) ==> r == AddOutcome::Added(final(self).model_dirs.len())
                && final(self).model_dirs@.len() == old(self).model_dirs@.len() + 1
                && final(self).model_dirs@.drop_last() == old(self).model_dirs@
                && final(self).model_dirs@.last()@ == canonical@,
            final(self).vpn == old(self).vpn,
    {
        if is_registered(existing_canonical, canonical) {
            return AddOutcome::AlreadyRegistered;
        }
        self.model_dirs.push(String::from_str(canonical));
        assert(self.model_dirs@.drop_last() == old(self).model_dirs@);
        AddOutcome::Added(self.model_dirs.len())
    }

    /// Unregisters every directory whose canonical path is `canonical`;
    /// returns how many were removed. `existing_canonical[i]` is the
    /// canonical path of `model_dirs[i]`.
    pub fn remove_directory(&mut self, canonical: &str, existing_canonical: &Vec<String>) -> (r: usize)
        requires
            existing_canonical.len() == old(self).model_dirs.len(),
        ensures
            final(self).model_dirs@ == kept_dirs(old(self).model_dirs@, existing_canonical@, canonical@),
            r == old(self).model_dirs.len() - final(self).model_dirs.len(),
            final(self).vpn == old(self).vpn,
    {
        let mut kept: Vec<String> = Vec::new();
        let mut i: usize = 0;
        let n = self.model_dirs.len();
        while i < n
            invariant
                i <= n,
                n == self.model_dirs.len(),
                self.model_dirs@ == old(self).model_dirs@,
                existing_canonical.len() == n,
                kept@ == kept_dirs(self.model_dirs@.take(i as int), existing_canonical@.take(i as int), canonical@),
                kept@.len() <= i,
            decreases n - i,
        {
            assert(self.model_dirs@.take(i + 1).drop_last() == self.model_dirs@.take(i as int));
            assert(existing_canonical@.take(i + 1).drop_last() == existing_canonical@.take(i as int));
            if !text::str_eq(existing_canonical[i].as_str(), canonical) {
                kept.push(self.model_dirs[i].clone());
            }
            i += 1;
        }
        assert(self.model_dirs@.take(n as int) == self.model_dirs@);
        assert(existing_canonical@.take(n as int) == existing_canonical@);
        self.model_dirs = kept;
        n - self.model_dirs.len()
    }
}

/// The directories whose canonical path is not `c`, in order.
pub open spec fn kept_dirs(dirs: Seq<String>, cs: Seq<String>, c: Seq<char>) -> Seq<String>
    decreases dirs.len(),
{
    if dirs.len() == 0 || cs.len() == 0 {
        Seq::empty()
    } else {
        let front = kept_dirs(dirs.drop_last(), cs.drop_last(), c);
        if cs.last()@ != c { front.push(dirs.last()) } else { front }
    }
}

/// A directory once added counts as registered, so adding it again changes
/// nothing (`add_directory` answers `AlreadyRegistered`).
pub proof fn law_added_directory_is_registered(cs: Seq<String>, c: String)
    ensures
        registered(cs.push(c), c@),
{
    assert(cs.push(c)[cs.len() as int] == c);
}

/// Removing a directory that was just added, and was not registered before,
/// gives back the directories as they were: `after` is the list as
/// `add_directory` leaves it (one more entry at the end), and `added` is the
/// canonical path of that entry.
pub proof fn law_remove_undoes_add(dirs: Seq<String>, cs: Seq<String>, after: Seq<String>, added: String)
    requires
        dirs.len() == cs.len(),
        !registered(cs, added@),
        after.len() == dirs.len() + 1,
        after.drop_last() == dirs,
    ensures
        kept_dirs(after, cs.push(added), added@) == dirs,
{
    assert(cs.push(added).drop_last() == cs);
    assert(cs.push(added).last() == added);
    lemma_kept_all(dirs, cs, added@);
}

/// When no canonical path is `c`, every directory is kept.
pub proof fn lemma_kept_all(dirs: Seq<String>, cs: Seq<String>, c: Seq<char>)
    requires
        dirs.len() == cs.len(),
        !registered(cs, c),
    ensures
        kept_dirs(dirs, cs, c) == dirs,
    decreases dirs.len(),
{
    if dirs.len() > 0 {
        assert(!registered(cs.drop_last(), c)) by {
            if registered(cs.drop_last(), c) {
                let i = choose|i: int| 0 <= i < cs.drop_last().len() && (#[trigger] cs.drop_last()[i])@ == c;
                assert(cs[i] == cs.drop_last()[i]);
            }
        }
        lemma_kept_all(dirs.drop_last(), cs.drop_last(), c);
        assert(cs[cs.len() - 1]@ != c);
        assert(dirs.drop_last().push(dirs.last()) == dirs);
    }
}

/// After removing `c`, no remaining directory has the canonical path `c`,
/// and every remaining one was registered before.
pub proof fn law_removed_directory_is_gone(dirs: Seq<String>, cs: Seq<String>, c: Seq<char>)
    requires
        dirs.len() == cs.len(),
    ensures
        kept_dirs(dirs, cs, c).len() <= dirs.len(),
        forall|k: int| 0 <= k < kept_dirs(dirs, cs, c).len()
            ==> exists|i: int| 0 <= i < dirs.len() && cs[i]@ != c && dirs[i] == #[trigger] kept_dirs(dirs, cs, c)[k],
    decreases dirs.len(),
{
    if dirs.len() > 0 {
        let fd = dirs.drop_last();
        let fc = cs.drop_last();
        law_removed_directory_is_gone(fd, fc, c);
        let front = kept_dirs(fd, fc, c);
        assert forall|k: int| 0 <= k < kept_dirs(dirs, cs, c).len()
            implies exists|i: int| 0 <= i < dirs.len() && cs[i]@ != c && dirs[i] == #[trigger] kept_dirs(dirs, cs, c)[k] by {
            if k < front.len() {
                let i = choose|i: int| 0 <= i < fd.len() && fc[i]@ != c && fd[i] == #[trigger] front[k];
                assert(dirs[i] == fd[i] && cs[i] == fc[i]);
            } else {
                assert(cs[dirs.len() - 1]@ != c);
            }
        }
    }
}

} // verus!
