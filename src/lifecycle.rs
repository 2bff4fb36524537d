use vstd::prelude::*;
use vstd::string::StringSliceAdditionalSpecFns;

use crate::error::JailError;
use crate::names::{
    container_name, derive_name, derive_name_spec, dir_name_of, extract_repo_name,
    hex_encode, hex_of, jail_path, join, join_path, sanitized,
};
use crate::reconcile::{
    CallModel, EngineCall, LaunchConfig, Reconciler, run_args_spec,
};
use crate::image::IMAGE_NAME;
use crate::registry::views;
use crate::runtime::Runtime;
use crate::text::{after_last, chars_of, push_all, string_from_chars};

verus! {

/// The source recorded for a jail created empty.
pub const EMPTY_SOURCE: &'static str = "(empty)";

/// The persisted record of one jail.
#[derive(Debug, PartialEq, Eq)]
pub struct JailMetadata {
    /// Source URL or path that was cloned.
    pub source: String,
    /// Last known container id; a cache, not authoritative.
    pub container_id: Option<String>,
    /// The engine chosen when the jail was created.
    pub runtime: Runtime,
    /// Creation time, in seconds since the epoch.
    pub created_at: String,
    /// Ports to expose; they only ever grow.
    pub ports: Vec<u16>,
    /// Name of the workspace directory inside the jail's directory.
    pub workspace_dir: String,
}

/// The workspace directory name of records written before it was recorded.
pub fn default_workspace_dir() -> (r: String)
    ensures
        r@ == "workspace"@,
{
    "workspace".to_owned()
}

impl JailMetadata {
    /// A record for a jail created now from `source`; each port is kept once.
    pub fn new(
        source: &str,
        runtime: Runtime,
        ports: Vec<u16>,
        workspace_dir: String,
        created_at: String,
    ) -> (r: JailMetadata)
        ensures
            r.wf(),
            r.source@ == source@,
            r.container_id is None,
            r.runtime == runtime,
            r.created_at == created_at,
            r.ports@ == merged_ports(Seq::empty(), ports@),
            r.workspace_dir == workspace_dir,
    {
        let mut m = JailMetadata {
            source: source.to_owned(),
            container_id: None,
            runtime,
            created_at,
            ports: Vec::new(),
            workspace_dir,
        };
        m.merge_ports(&ports);
        proof {
            lemma_merged_ports_unique(Seq::empty(), ports@);
        }
        m
    }

    /// The record's ports form a set: none is there twice.
    pub open spec fn wf(&self) -> bool {
        self.ports@.no_duplicates()
    }

    /// Adds each new port that is not there yet, in order; says whether any was
    /// added, which means the container must be recreated.
    pub fn merge_ports(&mut self, new_ports: &Vec<u16>) -> (changed: bool)
        ensures
            final(self).ports@ == merged_ports(old(self).ports@, new_ports@),
            changed == (final(self).ports@.len() > old(self).ports@.len()),
            old(self).wf() ==> final(self).wf(),
            final(self).source == old(self).source,
            final(self).container_id == old(self).container_id,
            final(self).runtime == old(self).runtime,
            final(self).created_at == old(self).created_at,
            final(self).workspace_dir == old(self).workspace_dir,
    {
        let ghost start = self.ports@;
        let ghost orig = *self;
        let mut changed = false;
        let mut k: usize = 0;
        while k < new_ports.len()
            invariant
                k <= new_ports@.len(),
                self.ports@ == merged_ports(start, new_ports@.take(k as int)),
                self.ports@.len() >= start.len(),
                changed == (self.ports@.len() > start.len()),
                self.source == orig.source,
                self.container_id == orig.container_id,
                self.runtime == orig.runtime,
                self.created_at == orig.created_at,
                self.workspace_dir == orig.workspace_dir,
            decreases new_ports@.len() - k,
        {
            let p = new_ports[k];
            assert(new_ports@.take(k + 1).drop_last() =~= new_ports@.take(k as int));
            if !contains_port(&self.ports, p) {
                self.ports.push(p);
                changed = true;
            }
            k = k + 1;
        }
        assert(new_ports@.take(new_ports@.len() as int) =~= new_ports@);
        proof {
            if start.no_duplicates() {
                lemma_merged_ports_unique(start, new_ports@);
            }
        }
        changed
    }
}

/// Whether `p` is among `ports`.
fn contains_port(ports: &Vec<u16>, p: u16) -> (r: bool)
    ensures
        r == ports@.contains(p),
{
    let mut i: usize = 0;
    while i < ports.len()
        invariant
            i <= ports@.len(),
            forall|j: int| 0 <= j < i ==> ports@[j] != p,
        decreases ports@.len() - i,
    {
        if ports[i] == p {
            return true;
        }
        i = i + 1;
    }
    false
}

/// `old` followed by each port of `new` that is not there yet, in order.
pub open spec fn merged_ports(old: Seq<u16>, new: Seq<u16>) -> Seq<u16>
    decreases new.len(),
{
    if new.len() == 0 {
        old
    } else {
        let m = merged_ports(old, new.drop_last());
        if m.contains(new.last()) {
            m
        } else {
            m.push(new.last())
        }
    }
}

/// Merging ports never drops or reorders a port already recorded, adds no
/// port twice, and ends holding exactly the old ports and the new ones.
pub proof fn lemma_merged_ports(old: Seq<u16>, new: Seq<u16>)
    ensures
        merged_ports(old, new).len() >= old.len(),
        merged_ports(old, new).take(old.len() as int) == old,
        forall|p: u16|
            #[trigger] merged_ports(old, new).contains(p) <==> (old.contains(p) || new.contains(p)),
    decreases new.len(),
{
    if new.len() > 0 {
        let init = new.drop_last();
        lemma_merged_ports(old, init);
        let m = merged_ports(old, init);
        assert(new =~= init.push(new.last()));
        assert forall|p: u16| #[trigger]
            merged_ports(old, new).contains(p) <==> (old.contains(p) || new.contains(p)) by {
            if new.contains(p) && p != new.last() {
                let i = choose|i: int| 0 <= i < new.len() && new[i] == p;
                assert(init[i] == p);
                assert(init.contains(p));
            }
            if init.contains(p) {
                let i = choose|i: int| 0 <= i < init.len() && init[i] == p;
                assert(new[i] == p);
            }
            if !m.contains(new.last()) {
                assert(m.push(new.last())[m.len() as int] == new.last());
                if m.push(new.last()).contains(p) && p != new.last() {
                    let i = choose|i: int| 0 <= i < m.len() + 1 && m.push(new.last())[i] == p;
                    assert(m[i] == p);
                }
                if m.contains(p) {
                    let i = choose|i: int| 0 <= i < m.len() && m[i] == p;
                    assert(m.push(new.last())[i] == p);
                }
            }
            assert(new[new.len() - 1] == new.last());
        }
        if !m.contains(new.last()) {
            assert(m.push(new.last()).take(old.len() as int) =~= m.take(old.len() as int));
        }
    }
}

/// Merging keeps the ports a set.
pub proof fn lemma_merged_ports_unique(old: Seq<u16>, new: Seq<u16>)
    requires
        old.no_duplicates(),
    ensures
        merged_ports(old, new).no_duplicates(),
    decreases new.len(),
{
    if new.len() > 0 {
        lemma_merged_ports_unique(old, new.drop_last());
        let m = merged_ports(old, new.drop_last());
        if !m.contains(new.last()) {
            assert forall|i: int, j: int|
                0 <= i < m.len() + 1 && 0 <= j < m.len() + 1 && i != j implies m.push(new.last())[i]
                != m.push(new.last())[j] by {
                if i == m.len() {
                    assert(m[j] != new.last());
                } else if j == m.len() {
                    assert(m[i] != new.last());
                }
            }
        }
    }
}

/// The record's ports grow, so the container is recreated, exactly when some
/// requested port was not recorded yet.
pub proof fn lemma_recreate_iff_new_port(old: Seq<u16>, new: Seq<u16>)
    ensures
        (merged_ports(old, new).len() > old.len()) <==> (exists|i: int|
            0 <= i < new.len() && !old.contains(#[trigger] new[i])),
    decreases new.len(),
{
    lemma_merged_ports(old, new);
    if new.len() > 0 {
        let init = new.drop_last();
        lemma_recreate_iff_new_port(old, init);
        lemma_merged_ports(old, init);
        let m = merged_ports(old, init);
        assert(new[new.len() - 1] == new.last());
        if exists|i: int| 0 <= i < init.len() && !old.contains(#[trigger] init[i]) {
            let i = choose|i: int| 0 <= i < init.len() && !old.contains(#[trigger] init[i]);
            assert(new[i] == init[i]);
        }
        if exists|i: int| 0 <= i < new.len() && !old.contains(#[trigger] new[i]) {
            let i = choose|i: int| 0 <= i < new.len() && !old.contains(#[trigger] new[i]);
            if i < new.len() - 1 {
                assert(init[i] == new[i]);
            } else if m.len() == old.len() {
                assert(m =~= m.take(old.len() as int));
                assert(!m.contains(new.last()));
            }
        }
    } else {
        assert(merged_ports(old, new) == old);
    }
}

/// What entering a jail sets up before its shell starts.
pub struct EnterPlan {
    /// The record changed and must be saved before the container is touched.
    pub save_record: bool,
    /// How the container is launched.
    pub launch: LaunchConfig,
    /// The reconciliation of the container.
    pub reconciler: Reconciler,
    /// The reconciliation's first engine call.
    pub first_call: EngineCall,
}

/// Enters jail `name`, stored in `jail_dir`: merges the requested ports into
/// its record, so that a port not recorded yet is saved first and makes the
/// container be recreated, and sets up the container's reconciliation.
pub fn enter(
    name: &str,
    jail_dir: &str,
    meta: &mut JailMetadata,
    new_ports: &Vec<u16>,
    macos: bool,
    ssh_args: Option<Vec<String>>,
) -> (r: EnterPlan)
    ensures
        final(meta).ports@ == merged_ports(old(meta).ports@, new_ports@),
        old(meta).wf() ==> final(meta).wf(),
        final(meta).source == old(meta).source,
        final(meta).container_id == old(meta).container_id,
        final(meta).runtime == old(meta).runtime,
        final(meta).created_at == old(meta).created_at,
        final(meta).workspace_dir == old(meta).workspace_dir,
        r.save_record == (final(meta).ports@.len() > old(meta).ports@.len()),
        r.launch.ports@ == final(meta).ports@,
        r.launch.workspace_dir == old(meta).workspace_dir,
        r.launch.host_workspace@ == join_path(jail_dir@, old(meta).workspace_dir@),
        r.launch.macos == macos,
        r.launch.ssh_args == ssh_args,
        r.reconciler.recreate == r.save_record,
        r.reconciler.container@ == "jail-"@ + sanitized(name@),
        r.reconciler.temp_image@ == "jail-temp-"@ + sanitized(name@),
        views(r.reconciler.fresh_args@) == run_args_spec(
            r.launch,
            r.reconciler.container@,
            IMAGE_NAME@,
        ),
        views(r.reconciler.recreate_args@) == run_args_spec(
            r.launch,
            r.reconciler.container@,
            r.reconciler.temp_image@,
        ),
        r.reconciler.phase@ == crate::reconcile::PhaseModel::Inspect,
        r.first_call@ == CallModel::ListAll(r.reconciler.container@),
{
    let changed = meta.merge_ports(new_ports);
    let launch = LaunchConfig {
        host_workspace: join(jail_dir, meta.workspace_dir.as_str()),
        workspace_dir: meta.workspace_dir.clone(),
        ports: meta.ports.clone(),
        macos,
        ssh_args,
    };
    let (reconciler, first_call) = Reconciler::new(name, &launch, changed);
    EnterPlan { save_record: changed, launch, reconciler, first_call }
}

/// After the shell in the jail exits: the container is stopped whatever the
/// shell's status, and a failed shell is reported once it is stopped.
pub fn after_shell(container_id: &str, shell_ok: bool) -> (r: (EngineCall, Result<(), JailError>))
    ensures
        r.0@ == CallModel::Stop(container_id@),
        shell_ok ==> r.1 is Ok,
        !shell_ok ==> r.1 matches Err(JailError::ShellFailed),
{
    let stop = EngineCall::Stop(container_id.to_owned());
    if shell_ok {
        (stop, Ok(()))
    } else {
        (stop, Err(JailError::ShellFailed))
    }
}

/// What removing a jail does: stop and remove its container, both on a
/// best-effort basis, then delete its directory, which must succeed.
pub struct RemovalPlan {
    /// Stop the container; best effort.
    pub stop: EngineCall,
    /// Remove the container; best effort.
    pub remove: EngineCall,
    /// The directory to delete.
    pub jail_dir: String,
}

/// The removal of jail `name` from the jails directory.
pub fn removal_plan(jails_dir: &str, name: &str) -> (r: RemovalPlan)
    ensures
        r.stop@ == CallModel::Stop("jail-"@ + sanitized(name@)),
        r.remove@ == CallModel::Remove("jail-"@ + sanitized(name@)),
        r.jail_dir@ == join_path(jails_dir@, dir_name_of(name@)),
{
    let c = container_name(name);
    RemovalPlan {
        stop: EngineCall::Stop(c.clone()),
        remove: EngineCall::Remove(c),
        jail_dir: jail_path(jails_dir, name),
    }
}

/// The editor URI that attaches to a container and opens its workspace.
pub fn editor_uri(container_id: &str, workspace_dir: &str) -> (r: String)
    ensures
        r@ == "vscode-remote://attached-container+"@ + hex_of(container_id.spec_bytes()) + seq![
            '/',
        ] + workspace_dir@,
{
    let mut out = chars_of("vscode-remote://attached-container+");
    let hex = hex_encode(container_id);
    push_all(&mut out, &chars_of(hex.as_str()));
    out.push('/');
    push_all(&mut out, &chars_of(workspace_dir));
    string_from_chars(&out)
}

/// Names and places of a jail about to be created.
pub struct NewJail {
    /// The jail's name.
    pub name: String,
    /// The jail's directory.
    pub dir: String,
    /// Name of its workspace directory.
    pub workspace_name: String,
    /// The workspace directory.
    pub workspace_path: String,
}

/// A jail cloned from `source`: named `name`, or else after the source; its
/// workspace is named after the last part of the name.
pub fn plan_clone(jails_dir: &str, source: &str, name: Option<&str>) -> (r: NewJail)
    ensures
        r.name@ == match name {
            Some(n) => n@,
            None => derive_name_spec(source@),
        },
        r.dir@ == join_path(jails_dir@, dir_name_of(r.name@)),
        r.workspace_name@ == after_last(r.name@, '/'),
        r.workspace_path@ == join_path(r.dir@, r.workspace_name@),
{
    let jail_name = match name {
        Some(n) => n.to_owned(),
        None => derive_name(source),
    };
    let dir = jail_path(jails_dir, jail_name.as_str());
    let workspace_name = extract_repo_name(jail_name.as_str());
    let workspace_path = join(dir.as_str(), workspace_name.as_str());
    NewJail { name: jail_name, dir, workspace_name, workspace_path }
}

/// An empty jail named `name`, whose workspace is named like the jail.
pub fn plan_create(jails_dir: &str, name: &str) -> (r: NewJail)
    ensures
        r.name@ == name@,
        r.dir@ == join_path(jails_dir@, dir_name_of(name@)),
        r.workspace_name@ == name@,
        r.workspace_path@ == join_path(r.dir@, name@),
{
    let dir = jail_path(jails_dir, name);
    let workspace_path = join(dir.as_str(), name);
    NewJail { name: name.to_owned(), dir, workspace_name: name.to_owned(), workspace_path }
}

} // verus!
