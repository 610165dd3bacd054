use vstd::prelude::*;
use crate::config::Config;
use crate::hash_store::{HashStore, namespace, record};
use crate::paths::{
    base_name, remote_path, file_name_of, remote_path_for, lemma_remote_path_base_name,
};

verus! {

/// A view of the ledger: the full namespace, then the pseudo namespace.
pub type LedgerView = (Map<Seq<char>, Seq<char>>, Map<Seq<char>, Seq<char>>);

/// What stays fixed during one sync run.
pub struct RunSettings {
    /// Whether pseudo fingerprints are used instead of full ones.
    pub pseudo: bool,
    /// The remote directory the folders are mirrored under; empty for the root.
    pub target_dir: Seq<char>,
    /// The base name of the local ledger file; files of that name are never sent.
    pub ledger_name: Seq<char>,
}

/// What a run learns about one file: its path relative to its folder, its
/// fingerprint, and whether its remote object exists.
pub struct Observation {
    pub relative: Seq<char>,
    pub fingerprint: Seq<char>,
    pub remote_exists: bool,
}

/// Whether a file is the ledger file itself, which a run leaves alone.
pub open spec fn is_ledger_file(st: RunSettings, relative: Seq<char>) -> bool {
    base_name(relative) == st.ledger_name
}

/// A file is sent unless its remote object exists and the ledger holds, in
/// the namespace of the mode, the same fingerprint for its remote path.
pub open spec fn needs_upload(
    l: LedgerView,
    pseudo: bool,
    remote: Seq<char>,
    fingerprint: Seq<char>,
    remote_exists: bool,
) -> bool {
    !(remote_exists && namespace(l, pseudo).contains_key(remote) && namespace(l, pseudo)[remote]
        == fingerprint)
}

/// Whether a run that reaches the file `f` with ledger `l` sends it.
pub open spec fn uploads_file(l: LedgerView, st: RunSettings, f: Observation) -> bool {
    !is_ledger_file(st, f.relative) && needs_upload(
        l,
        st.pseudo,
        remote_path(st.target_dir, f.relative),
        f.fingerprint,
        f.remote_exists,
    )
}

/// The ledger after handling the file `f`: a sent file is recorded under its
/// remote path in the namespace of the mode.
pub open spec fn step(l: LedgerView, st: RunSettings, f: Observation) -> LedgerView {
    if uploads_file(l, st, f) {
        record(l, st.pseudo, remote_path(st.target_dir, f.relative), f.fingerprint)
    } else {
        l
    }
}

/// The ledger after a run, in order, over the files `files`, every upload
/// succeeding.
pub open spec fn run(l: LedgerView, st: RunSettings, files: Seq<Observation>) -> LedgerView
    decreases files.len(),
{
    if files.len() == 0 {
        l
    } else {
        step(run(l, st, files.drop_last()), st, files.last())
    }
}

/// The number of files that such a run sends.
pub open spec fn upload_count(l: LedgerView, st: RunSettings, files: Seq<Observation>) -> nat
    decreases files.len(),
{
    if files.len() == 0 {
        0
    } else {
        upload_count(l, st, files.drop_last()) + if uploads_file(
            run(l, st, files.drop_last()),
            st,
            files.last(),
        ) {
            1nat
        } else {
            0nat
        }
    }
}

/// The per-file decisions of one sync run, with the ledger it updates.
pub struct SyncSession {
    ledger: HashStore,
    pseudo: bool,
    target_dir: String,
    ledger_name: String,
}

impl SyncSession {
    /// The fixed settings of the run.
    pub closed spec fn settings(&self) -> RunSettings {
        RunSettings {
            pseudo: self.pseudo,
            target_dir: self.target_dir@,
            ledger_name: self.ledger_name@,
        }
    }

    /// The ledger as it stands.
    pub closed spec fn ledger_view(&self) -> LedgerView {
        self.ledger@
    }

    /// Starts a run over `ledger`, with the target directory and ledger file
    /// of `config`, in pseudo mode when `pseudo` is set.
    pub fn new(ledger: HashStore, config: &Config, pseudo: bool) -> (r: SyncSession)
        ensures
            r.ledger_view() == ledger@,
            r.settings() == (RunSettings {
                pseudo,
                target_dir: config.target_dir@,
                ledger_name: base_name(config.hash_store_path@),
            }),
    {
        SyncSession {
            ledger,
            pseudo,
            target_dir: config.target_dir.clone(),
            ledger_name: file_name_of(config.hash_store_path.as_str()),
        }
    }

    /// The remote path a file goes to, or `None` for the ledger file, which
    /// is never sent.
    pub fn admit_file(&self, relative: &str) -> (r: Option<String>)
        ensures
            match r {
                Some(p) => !is_ledger_file(self.settings(), relative@) && p@ == remote_path(
                    self.settings().target_dir,
                    relative@,
                ),
                None => is_ledger_file(self.settings(), relative@),
            },
    {
        let name = file_name_of(relative);
        if name == self.ledger_name {
            None
        } else {
            Some(remote_path_for(self.target_dir.as_str(), relative))
        }
    }

    /// Whether a file with this remote path, fingerprint and remote state
    /// must be sent.
    pub fn needs_upload(&self, remote: &String, fingerprint: &String, remote_exists: bool) -> (r:
        bool)
        ensures
            r == needs_upload(self.ledger_view(), self.settings().pseudo, remote@, fingerprint@, remote_exists),
    {
        if !remote_exists {
            return true;
        }
        match self.ledger.get(self.pseudo, remote) {
            Some(stored) => !(*stored == *fingerprint),
            None => true,
        }
    }

    /// Records the fingerprint of a file whose upload succeeded.
    pub fn record_upload(&mut self, remote: String, fingerprint: String)
        ensures
            final(self).settings() == old(self).settings(),
            final(self).ledger_view() == record(
                old(self).ledger_view(),
                old(self).settings().pseudo,
                remote@,
                fingerprint@,
            ),
    {
        self.ledger.set(self.pseudo, remote, fingerprint);
    }

    /// The ledger as it stands.
    pub fn ledger(&self) -> (r: &HashStore)
        ensures
            r@ == self.ledger_view(),
    {
        &self.ledger
    }

    /// Ends the run and hands back the ledger.
    pub fn into_ledger(self) -> (r: HashStore)
        ensures
            r@ == self.ledger_view(),
    {
        self.ledger
    }
}

/// Files sent to the same remote path carry the same fingerprint.
pub open spec fn paths_consistent(st: RunSettings, files: Seq<Observation>) -> bool {
    forall|i: int, j: int|
        0 <= i < files.len() && 0 <= j < files.len() && !is_ledger_file(st, files[i].relative)
            && !is_ledger_file(st, files[j].relative) && remote_path(st.target_dir, files[i].relative)
            == remote_path(st.target_dir, files[j].relative) ==> #[trigger] files[i].fingerprint
            == #[trigger] files[j].fingerprint
}

/// The ledger holds the fingerprint of `f` under its remote path, in the
/// namespace of the mode.
pub open spec fn holds_file(l: LedgerView, st: RunSettings, f: Observation) -> bool {
    let remote = remote_path(st.target_dir, f.relative);
    namespace(l, st.pseudo).contains_key(remote) && namespace(l, st.pseudo)[remote]
        == f.fingerprint
}

/// Every file that a run may send is in the ledger afterwards.
proof fn lemma_run_holds_files(l: LedgerView, st: RunSettings, files: Seq<Observation>)
    requires
        paths_consistent(st, files),
    ensures
        forall|i: int|
            0 <= i < files.len() && !is_ledger_file(st, files[i].relative) ==> holds_file(
                run(l, st, files),
                st,
                #[trigger] files[i],
            ),
    decreases files.len(),
{
    if files.len() > 0 {
        let pre = files.drop_last();
        assert forall|i: int, j: int|
            0 <= i < pre.len() && 0 <= j < pre.len() && !is_ledger_file(st, pre[i].relative)
                && !is_ledger_file(st, pre[j].relative) && remote_path(st.target_dir, pre[i].relative)
                == remote_path(st.target_dir, pre[j].relative) implies #[trigger] pre[i].fingerprint
            == #[trigger] pre[j].fingerprint by {
            assert(pre[i] == files[i] && pre[j] == files[j]);
        }
        lemma_run_holds_files(l, st, pre);
        let last = files.len() - 1;
        assert forall|i: int|
            0 <= i < files.len() && !is_ledger_file(st, files[i].relative) implies holds_file(
            run(l, st, files),
            st,
            #[trigger] files[i],
        ) by {
            if i < last {
                assert(pre[i] == files[i]);
                assert(holds_file(run(l, st, pre), st, pre[i]));
                if remote_path(st.target_dir, files[i].relative) == remote_path(
                    st.target_dir,
                    files[last].relative,
                ) && !is_ledger_file(st, files[last].relative) {
                    assert(files[i].fingerprint == files[last].fingerprint);
                }
            }
        }
    }
}

/// A run over files that the ledger already holds, all present remotely,
/// sends nothing and leaves the ledger as it was.
proof fn lemma_run_over_held_files(l: LedgerView, st: RunSettings, files: Seq<Observation>)
    requires
        forall|i: int|
            0 <= i < files.len() && !is_ledger_file(st, files[i].relative) ==> holds_file(
                l,
                st,
                #[trigger] files[i],
            ),
        forall|i: int| 0 <= i < files.len() ==> #[trigger] files[i].remote_exists,
    ensures
        run(l, st, files) == l,
        upload_count(l, st, files) == 0,
    decreases files.len(),
{
    if files.len() > 0 {
        let pre = files.drop_last();
        assert forall|i: int|
            0 <= i < pre.len() && !is_ledger_file(st, pre[i].relative) implies holds_file(
            l,
            st,
            #[trigger] pre[i],
        ) by {
            assert(pre[i] == files[i]);
        }
        assert forall|i: int| 0 <= i < pre.len() implies #[trigger] pre[i].remote_exists by {
            assert(pre[i] == files[i]);
        }
        lemma_run_over_held_files(l, st, pre);
        assert(files[files.len() - 1].remote_exists);
        assert(!is_ledger_file(st, files.last().relative) ==> holds_file(l, st, files[files.len() - 1]));
    }
}

/// A second run over the same files, with unchanged contents and remote
/// paths and their remote objects present, sends nothing and leaves the
/// ledger exactly as the first run left it. Files sent to one remote path
/// must agree on their fingerprint.
pub proof fn lemma_second_run_sends_nothing(
    l: LedgerView,
    st: RunSettings,
    first: Seq<Observation>,
    second: Seq<Observation>,
)
    requires
        paths_consistent(st, first),
        second.len() == first.len(),
        forall|i: int|
            0 <= i < first.len() ==> (#[trigger] second[i]).relative == first[i].relative
                && second[i].fingerprint == first[i].fingerprint && second[i].remote_exists,
    ensures
        run(run(l, st, first), st, second) == run(l, st, first),
        upload_count(run(l, st, first), st, second) == 0,
{
    lemma_run_holds_files(l, st, first);
    let l1 = run(l, st, first);
    assert forall|i: int|
        0 <= i < second.len() && !is_ledger_file(st, second[i].relative) implies holds_file(
        l1,
        st,
        #[trigger] second[i],
    ) by {
        assert(holds_file(l1, st, first[i]));
    }
    assert forall|i: int| 0 <= i < second.len() implies #[trigger] second[i].remote_exists by {}
    lemma_run_over_held_files(l1, st, second);
}

/// Some key of the ledger, in either namespace, has base name `name`.
pub open spec fn holds_name(l: LedgerView, name: Seq<char>) -> bool {
    exists|k: Seq<char>| (l.0.contains_key(k) || l.1.contains_key(k)) && #[trigger] base_name(k) == name
}

/// A run never records the ledger file: if no key of the ledger has the
/// ledger file's name before the run, none has it after.
pub proof fn lemma_ledger_file_never_recorded(l: LedgerView, st: RunSettings, files: Seq<Observation>)
    requires
        !holds_name(l, st.ledger_name),
    ensures
        !holds_name(run(l, st, files), st.ledger_name),
    decreases files.len(),
{
    if files.len() > 0 {
        let pre = files.drop_last();
        lemma_ledger_file_never_recorded(l, st, pre);
        let f = files.last();
        let lp = run(l, st, pre);
        if uploads_file(lp, st, f) {
            let key = remote_path(st.target_dir, f.relative);
            lemma_remote_path_base_name(st.target_dir, f.relative);
            let l2 = run(l, st, files);
            assert(l2 == record(lp, st.pseudo, key, f.fingerprint));
            if holds_name(l2, st.ledger_name) {
                let k = choose|k: Seq<char>|
                    (l2.0.contains_key(k) || l2.1.contains_key(k)) && #[trigger] base_name(k)
                        == st.ledger_name;
                if k != key {
                    assert(lp.0.contains_key(k) || lp.1.contains_key(k));
                }
            }
        }
    }
}

/// A run in one mode leaves the namespace of the other mode as it was, so
/// what one mode records never makes the other skip a file.
pub proof fn lemma_run_keeps_other_namespace(l: LedgerView, st: RunSettings, files: Seq<Observation>)
    ensures
        namespace(run(l, st, files), !st.pseudo) == namespace(l, !st.pseudo),
    decreases files.len(),
{
    if files.len() > 0 {
        lemma_run_keeps_other_namespace(l, st, files.drop_last());
    }
}

} // verus!
