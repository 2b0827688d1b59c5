//! Sandbox policies and their merge, which keeps the restrictions of both sides.

use vstd::prelude::*;

use crate::text::join;
use crate::text::just;
use crate::text::lacks;
use crate::text::lemma_split_around;
use crate::text::lemma_split_whole;
use crate::text::same_text;
use crate::text::split_text;
use crate::text::split_where;
use crate::text::starts_with;
use crate::text::texts;

verus! {

// ---------------------------------------------------------------------------------------------
// Paths
// ---------------------------------------------------------------------------------------------

/// A part of a path that names a step: neither empty nor a dot.
pub open spec fn is_step() -> spec_fn(Seq<char>) -> bool {
    |part: Seq<char>| part.len() > 0 && part != "."@
}

/// The steps of an absolute path: what stands between its slashes, without empty parts and dots.
pub open spec fn steps(path: Seq<char>) -> Seq<Seq<char>> {
    split_where(path, just('/')).filter(is_step())
}

/// Two absolute paths are the same where their steps are.
pub open spec fn same_path(left: Seq<char>, right: Seq<char>) -> bool {
    steps(left) == steps(right)
}

/// An absolute path.
#[derive(Clone, Debug)]
pub struct AbsolutePathBuf {
    /// The path as it was written.
    pub path: String,
}

impl View for AbsolutePathBuf {
    type V = Seq<char>;

    open spec fn view(&self) -> Seq<char> {
        self.path@
    }
}

impl PartialEq for AbsolutePathBuf {
    fn eq(&self, other: &Self) -> (same: bool) {
        self.names_same_path(other)
    }
}

impl vstd::std_specs::cmp::PartialEqSpecImpl for AbsolutePathBuf {
    open spec fn obeys_eq_spec() -> bool {
        true
    }

    open spec fn eq_spec(&self, other: &Self) -> bool {
        same_path(self@, other@)
    }
}

impl Eq for AbsolutePathBuf {

}

/// The steps of an absolute path.
fn path_steps(path: &str) -> (found: Vec<String>)
    ensures
        texts(found@) == steps(path@),
{
    let parts = split_text(path, '/');
    let mut found: Vec<String> = Vec::new();
    let mut at: usize = 0;
    proof {
        reveal(Seq::filter);
        assert(texts(parts@).take(0) =~= Seq::<Seq<char>>::empty());
        assert(texts(found@) =~= Seq::<Seq<char>>::empty());
    }
    while at < parts.len()
        invariant
            at <= parts@.len(),
            texts(found@) == texts(parts@).take(at as int).filter(is_step()),
        decreases parts@.len() - at,
    {
        let ghost before = texts(found@);
        let ghost next = texts(parts@).take(at + 1);
        proof {
            reveal(Seq::filter);
            assert(next.drop_last() =~= texts(parts@).take(at as int));
            assert(next.last() == parts@[at as int]@);
        }
        if !parts[at].as_str().is_empty() && !same_text(parts[at].as_str(), ".") {
            found.push(parts[at].clone());
            assert(texts(found@) =~= before.push(parts@[at as int]@));
        }
        at += 1;
    }
    assert(texts(parts@).take(at as int) =~= texts(parts@));
    found
}

/// Whether two lists of texts hold the same.
fn same_texts(left: &Vec<String>, right: &Vec<String>) -> (same: bool)
    ensures
        same == (texts(left@) == texts(right@)),
{
    if left.len() != right.len() {
        assert(texts(left@).len() != texts(right@).len());
        return false;
    }
    let mut at: usize = 0;
    while at < left.len()
        invariant
            left@.len() == right@.len(),
            at <= left@.len(),
            forall|i: int| 0 <= i < at ==> left@[i]@ == right@[i]@,
        decreases left@.len() - at,
    {
        if !same_text(left[at].as_str(), right[at].as_str()) {
            assert(texts(left@)[at as int] != texts(right@)[at as int]);
            return false;
        }
        at += 1;
    }
    assert(texts(left@) =~= texts(right@));
    true
}

impl AbsolutePathBuf {
    /// The absolute path that a text spells; a text that does not begin with a slash is handed
    /// back.
    pub fn try_from(path: String) -> (made: Result<AbsolutePathBuf, String>)
        ensures
            match made {
                Ok(absolute) => path@.len() > 0 && path@[0] == '/' && absolute@ == path@,
                Err(refused) => !(path@.len() > 0 && path@[0] == '/') && refused@ == path@,
            },
    {
        proof {
            reveal_strlit("/");
        }
        if starts_with(path.as_str(), "/") {
            assert(path@.take(1)[0] == '/');
            Ok(AbsolutePathBuf { path })
        } else {
            assert(path@.len() > 0 && path@[0] == '/' ==> path@.take(1) =~= "/"@);
            Err(path)
        }
    }

    /// Whether two absolute paths are the same, step by step.
    pub fn names_same_path(&self, other: &AbsolutePathBuf) -> (same: bool)
        ensures
            same == same_path(self@, other@),
    {
        let left = path_steps(self.path.as_str());
        let right = path_steps(other.path.as_str());
        same_texts(&left, &right)
    }

    /// A copy of the path.
    pub fn copy(&self) -> (copy: AbsolutePathBuf)
        ensures
            copy@ == self@,
    {
        AbsolutePathBuf { path: self.path.clone() }
    }
}

/// The paths of a list of roots.
pub open spec fn root_paths(roots: Seq<AbsolutePathBuf>) -> Seq<Seq<char>> {
    Seq::new(roots.len(), |i: int| roots[i]@)
}

/// Whether a list of roots names a path.
pub open spec fn names(roots: Seq<Seq<char>>, path: Seq<char>) -> bool {
    exists|i: int| 0 <= i < roots.len() && same_path(#[trigger] roots[i], path)
}

/// The roots of `base` that `extension` names too, each path once, in the order of `base`.
pub open spec fn common_roots(base: Seq<Seq<char>>, extension: Seq<Seq<char>>) -> Seq<Seq<char>>
    decreases base.len(),
{
    if base.len() == 0 {
        Seq::empty()
    } else {
        let kept = common_roots(base.drop_last(), extension);
        if names(extension, base.last()) && !names(kept, base.last()) {
            kept.push(base.last())
        } else {
            kept
        }
    }
}

/// The common roots name exactly the paths that both lists name, are all from `base`, and name no
/// path twice.
pub proof fn lemma_common_roots(base: Seq<Seq<char>>, extension: Seq<Seq<char>>)
    ensures
        forall|path: Seq<char>| #[trigger]
            names(common_roots(base, extension), path) <==> names(base, path) && names(
                extension,
                path,
            ),
        forall|i: int|
            0 <= i < common_roots(base, extension).len() ==> base.contains(
                #[trigger] common_roots(base, extension)[i],
            ),
        forall|i: int, j: int|
            0 <= i < j < common_roots(base, extension).len() ==> !same_path(
                #[trigger] common_roots(base, extension)[i],
                #[trigger] common_roots(base, extension)[j],
            ),
    decreases base.len(),
{
    let all = common_roots(base, extension);
    if base.len() > 0 {
        let shorter = base.drop_last();
        let root = base.last();
        let kept = common_roots(shorter, extension);
        lemma_common_roots(shorter, extension);
        assert forall|path: Seq<char>| #[trigger] names(all, path) <==> names(base, path) && names(
            extension,
            path,
        ) by {
            if names(all, path) {
                let i = choose|i: int| 0 <= i < all.len() && same_path(#[trigger] all[i], path);
                if i < kept.len() {
                    assert(same_path(kept[i], path));
                    assert(names(kept, path));
                    let j = choose|j: int|
                        0 <= j < shorter.len() && same_path(#[trigger] shorter[j], path);
                    assert(same_path(base[j], path));
                } else {
                    assert(all[i] == root);
                    assert(same_path(base[base.len() - 1], path));
                    let j = choose|j: int|
                        0 <= j < extension.len() && same_path(#[trigger] extension[j], root);
                    assert(same_path(extension[j], path));
                }
            }
            if names(base, path) && names(extension, path) {
                let i = choose|i: int| 0 <= i < base.len() && same_path(#[trigger] base[i], path);
                if i < shorter.len() {
                    assert(same_path(shorter[i], path));
                    assert(names(kept, path));
                    let j = choose|j: int|
                        0 <= j < kept.len() && same_path(#[trigger] kept[j], path);
                    assert(same_path(all[j], path));
                } else {
                    let j = choose|j: int|
                        0 <= j < extension.len() && same_path(#[trigger] extension[j], path);
                    assert(same_path(extension[j], root));
                    assert(names(extension, root));
                    if names(kept, root) {
                        let k = choose|k: int|
                            0 <= k < kept.len() && same_path(#[trigger] kept[k], root);
                        assert(same_path(all[k], path));
                    } else {
                        assert(same_path(all[kept.len() as int], path));
                    }
                }
            }
        }
        assert forall|i: int| 0 <= i < all.len() implies base.contains(#[trigger] all[i]) by {
            if i < kept.len() {
                assert(shorter.contains(kept[i]));
                let j = choose|j: int| 0 <= j < shorter.len() && shorter[j] == kept[i];
                assert(base[j] == all[i]);
            } else {
                assert(base[base.len() - 1] == all[i]);
            }
        }
        assert forall|i: int, j: int| 0 <= i < j < all.len() implies !same_path(
            #[trigger] all[i],
            #[trigger] all[j],
        ) by {
            if j < kept.len() {
                assert(!same_path(kept[i], kept[j]));
            } else if same_path(all[i], all[j]) {
                assert(same_path(kept[i], root));
            }
        }
    }
}

/// Whether a list of roots names a path.
fn roots_name(roots: &Vec<AbsolutePathBuf>, path: &AbsolutePathBuf) -> (named: bool)
    ensures
        named == names(root_paths(roots@), path@),
{
    let mut at: usize = 0;
    while at < roots.len()
        invariant
            at <= roots@.len(),
            forall|i: int| 0 <= i < at ==> !same_path(#[trigger] roots@[i]@, path@),
        decreases roots@.len() - at,
    {
        if roots[at].names_same_path(path) {
            assert(same_path(root_paths(roots@)[at as int], path@));
            return true;
        }
        at += 1;
    }
    assert forall|i: int| 0 <= i < roots@.len() implies !same_path(
        #[trigger] root_paths(roots@)[i],
        path@,
    ) by {
        assert(!same_path(roots@[i]@, path@));
    }
    false
}

/// The roots of `base_roots` that `extension_roots` names too, each path once.
pub fn intersect_absolute_roots(
    base_roots: &Vec<AbsolutePathBuf>,
    extension_roots: &Vec<AbsolutePathBuf>,
) -> (roots: Vec<AbsolutePathBuf>)
    ensures
        root_paths(roots@) == common_roots(root_paths(base_roots@), root_paths(extension_roots@)),
{
    let mut roots: Vec<AbsolutePathBuf> = Vec::new();
    let ghost base = root_paths(base_roots@);
    let mut at: usize = 0;
    proof {
        assert(base.take(0) =~= Seq::<Seq<char>>::empty());
        assert(root_paths(roots@) =~= Seq::<Seq<char>>::empty());
    }
    while at < base_roots.len()
        invariant
            at <= base_roots@.len(),
            base == root_paths(base_roots@),
            root_paths(roots@) == common_roots(
                base.take(at as int),
                root_paths(extension_roots@),
            ),
        decreases base_roots@.len() - at,
    {
        let root = &base_roots[at];
        let ghost kept = root_paths(roots@);
        proof {
            assert(base.take(at + 1).drop_last() =~= base.take(at as int));
            assert(base.take(at + 1).last() == root@);
        }
        if roots_name(extension_roots, root) && !roots_name(&roots, root) {
            roots.push(root.copy());
            assert(root_paths(roots@) =~= kept.push(root@));
        }
        at += 1;
    }
    assert(base.take(at as int) =~= base);
    roots
}

/// A copy of a list of roots.
fn copy_roots(roots: &Vec<AbsolutePathBuf>) -> (copy: Vec<AbsolutePathBuf>)
    ensures
        root_paths(copy@) == root_paths(roots@),
{
    let mut copy: Vec<AbsolutePathBuf> = Vec::new();
    let mut at: usize = 0;
    while at < roots.len()
        invariant
            at <= roots@.len(),
            copy@.len() == at,
            forall|i: int| 0 <= i < at ==> #[trigger] copy@[i]@ == roots@[i]@,
        decreases roots@.len() - at,
    {
        copy.push(roots[at].copy());
        at += 1;
    }
    assert(root_paths(copy@) =~= root_paths(roots@));
    copy
}

// ---------------------------------------------------------------------------------------------
// Policies
// ---------------------------------------------------------------------------------------------

/// Whether the network may be used.
#[derive(Clone, Copy, Debug, PartialEq, Eq, Structural)]
pub enum NetworkAccess {
    /// It may not.
    Restricted,
    /// It may.
    Enabled,
}

impl NetworkAccess {
    /// Whether the network may be used.
    pub fn is_enabled(self) -> (enabled: bool)
        ensures
            enabled == (self == NetworkAccess::Enabled),
    {
        match self {
            NetworkAccess::Enabled => true,
            NetworkAccess::Restricted => false,
        }
    }
}

/// What may be read.
#[derive(Clone, Debug, PartialEq, Eq)]
pub enum ReadOnlyAccess {
    /// Named roots, and the defaults of the platform where they are included.
    Restricted {
        /// Whether the defaults of the platform may be read.
        include_platform_defaults: bool,
        /// The roots that may be read.
        readable_roots: Vec<AbsolutePathBuf>,
    },
    /// Everything.
    FullAccess,
}

/// What a sandboxed command may do.
#[derive(Clone, Debug, PartialEq, Eq)]
pub enum SandboxPolicy {
    /// Everything.
    DangerFullAccess,
    /// Reading only, without the network.
    ReadOnly {
        /// What may be read.
        access: ReadOnlyAccess,
    },
    /// Whatever a sandbox outside allows.
    ExternalSandbox {
        /// Whether the network may be used.
        network_access: NetworkAccess,
    },
    /// Writing to the workspace and to named roots.
    WorkspaceWrite {
        /// The roots that may be written besides the workspace.
        writable_roots: Vec<AbsolutePathBuf>,
        /// What may be read.
        read_only_access: ReadOnlyAccess,
        /// Whether the network may be used.
        network_access: bool,
        /// Whether the directory that TMPDIR names is left out of what may be written.
        exclude_tmpdir_env_var: bool,
        /// Whether /tmp is left out of what may be written.
        exclude_slash_tmp: bool,
    },
}

/// What may be read, with paths as texts.
#[verifier::ext_equal]
pub enum ReadView {
    /// Named roots, and the defaults of the platform where they are included.
    Restricted { include_platform_defaults: bool, readable_roots: Seq<Seq<char>> },
    /// Everything.
    FullAccess,
}

/// What a sandboxed command may do, with paths as texts.
#[verifier::ext_equal]
pub enum PolicyView {
    /// Everything.
    DangerFullAccess,
    /// Reading only, without the network.
    ReadOnly { access: ReadView },
    /// Whatever a sandbox outside allows.
    ExternalSandbox { network_access: NetworkAccess },
    /// Writing to the workspace and to named roots.
    WorkspaceWrite {
        writable_roots: Seq<Seq<char>>,
        read_only_access: ReadView,
        network_access: bool,
        exclude_tmpdir_env_var: bool,
        exclude_slash_tmp: bool,
    },
}

impl View for ReadOnlyAccess {
    type V = ReadView;

    open spec fn view(&self) -> ReadView {
        match self {
            ReadOnlyAccess::Restricted { include_platform_defaults, readable_roots } => {
                ReadView::Restricted {
                    include_platform_defaults: *include_platform_defaults,
                    readable_roots: root_paths(readable_roots@),
                }
            },
            ReadOnlyAccess::FullAccess => ReadView::FullAccess,
        }
    }
}

impl View for SandboxPolicy {
    type V = PolicyView;

    open spec fn view(&self) -> PolicyView {
        match self {
            SandboxPolicy::DangerFullAccess => PolicyView::DangerFullAccess,
            SandboxPolicy::ReadOnly { access } => PolicyView::ReadOnly { access: access@ },
            SandboxPolicy::ExternalSandbox { network_access } => PolicyView::ExternalSandbox {
                network_access: *network_access,
            },
            SandboxPolicy::WorkspaceWrite {
                writable_roots,
                read_only_access,
                network_access,
                exclude_tmpdir_env_var,
                exclude_slash_tmp,
            } => PolicyView::WorkspaceWrite {
                writable_roots: root_paths(writable_roots@),
                read_only_access: read_only_access@,
                network_access: *network_access,
                exclude_tmpdir_env_var: *exclude_tmpdir_env_var,
                exclude_slash_tmp: *exclude_slash_tmp,
            },
        }
    }
}

impl ReadOnlyAccess {
    /// A copy of the access.
    pub fn copy(&self) -> (copy: ReadOnlyAccess)
        ensures
            copy@ == self@,
    {
        match self {
            ReadOnlyAccess::Restricted { include_platform_defaults, readable_roots } => {
                ReadOnlyAccess::Restricted {
                    include_platform_defaults: *include_platform_defaults,
                    readable_roots: copy_roots(readable_roots),
                }
            },
            ReadOnlyAccess::FullAccess => ReadOnlyAccess::FullAccess,
        }
    }
}

impl SandboxPolicy {
    /// A copy of the policy.
    pub fn copy(&self) -> (copy: SandboxPolicy)
        ensures
            copy@ == self@,
    {
        match self {
            SandboxPolicy::DangerFullAccess => SandboxPolicy::DangerFullAccess,
            SandboxPolicy::ReadOnly { access } => SandboxPolicy::ReadOnly { access: access.copy() },
            SandboxPolicy::ExternalSandbox { network_access } => SandboxPolicy::ExternalSandbox {
                network_access: *network_access,
            },
            SandboxPolicy::WorkspaceWrite {
                writable_roots,
                read_only_access,
                network_access,
                exclude_tmpdir_env_var,
                exclude_slash_tmp,
            } => SandboxPolicy::WorkspaceWrite {
                writable_roots: copy_roots(writable_roots),
                read_only_access: read_only_access.copy(),
                network_access: *network_access,
                exclude_tmpdir_env_var: *exclude_tmpdir_env_var,
                exclude_slash_tmp: *exclude_slash_tmp,
            },
        }
    }
}

// ---------------------------------------------------------------------------------------------
// The merge
// ---------------------------------------------------------------------------------------------

/// What both sides may read.
pub open spec fn merged_access(base: ReadView, extension: ReadView) -> ReadView {
    match (base, extension) {
        (ReadView::FullAccess, access) => access,
        (access, ReadView::FullAccess) => access,
        (
            ReadView::Restricted {
                include_platform_defaults: base_defaults,
                readable_roots: base_roots,
            },
            ReadView::Restricted {
                include_platform_defaults: extension_defaults,
                readable_roots: extension_roots,
            },
        ) => ReadView::Restricted {
            include_platform_defaults: base_defaults && extension_defaults,
            readable_roots: common_roots(base_roots, extension_roots),
        },
    }
}

/// What a workspace policy becomes inside an outer sandbox.
pub open spec fn within_external(policy: PolicyView, network: NetworkAccess) -> PolicyView {
    match policy {
        PolicyView::WorkspaceWrite {
            writable_roots,
            read_only_access,
            network_access,
            exclude_tmpdir_env_var,
            exclude_slash_tmp,
        } => PolicyView::WorkspaceWrite {
            writable_roots,
            read_only_access,
            network_access: network_access && network == NetworkAccess::Enabled,
            exclude_tmpdir_env_var,
            exclude_slash_tmp,
        },
        other => other,
    }
}

/// The policy that keeps the restrictions of both sides.
pub open spec fn merged(base: PolicyView, extension: PolicyView) -> PolicyView {
    match (base, extension) {
        (PolicyView::DangerFullAccess, other) => other,
        (other, PolicyView::DangerFullAccess) => other,
        (
            PolicyView::ExternalSandbox { network_access: base_network },
            PolicyView::ExternalSandbox { network_access: extension_network },
        ) => PolicyView::ExternalSandbox {
            network_access: if base_network == NetworkAccess::Enabled && extension_network
                == NetworkAccess::Enabled {
                NetworkAccess::Enabled
            } else {
                NetworkAccess::Restricted
            },
        },
        (PolicyView::ExternalSandbox { network_access }, other) => within_external(
            other,
            network_access,
        ),
        (other, PolicyView::ExternalSandbox { network_access }) => within_external(
            other,
            network_access,
        ),
        (
            PolicyView::ReadOnly { access: base_access },
            PolicyView::ReadOnly { access: extension_access },
        ) => PolicyView::ReadOnly { access: merged_access(base_access, extension_access) },
        (
            PolicyView::ReadOnly { access },
            PolicyView::WorkspaceWrite { read_only_access, .. },
        ) => PolicyView::ReadOnly { access: merged_access(access, read_only_access) },
        (
            PolicyView::WorkspaceWrite { read_only_access, .. },
            PolicyView::ReadOnly { access },
        ) => PolicyView::ReadOnly { access: merged_access(read_only_access, access) },
        (
            PolicyView::WorkspaceWrite {
                writable_roots: base_roots,
                read_only_access: base_access,
                network_access: base_network,
                exclude_tmpdir_env_var: base_tmpdir,
                exclude_slash_tmp: base_slash_tmp,
            },
            PolicyView::WorkspaceWrite {
                writable_roots: extension_roots,
                read_only_access: extension_access,
                network_access: extension_network,
                exclude_tmpdir_env_var: extension_tmpdir,
                exclude_slash_tmp: extension_slash_tmp,
            },
        ) => PolicyView::WorkspaceWrite {
            writable_roots: common_roots(base_roots, extension_roots),
            read_only_access: merged_access(base_access, extension_access),
            network_access: base_network && extension_network,
            exclude_tmpdir_env_var: base_tmpdir || extension_tmpdir,
            exclude_slash_tmp: base_slash_tmp || extension_slash_tmp,
        },
    }
}

/// The network may be used where both sides let it be used.
pub fn restrict_network_access(base: NetworkAccess, extension: NetworkAccess) -> (network:
    NetworkAccess)
    ensures
        network == (if base == NetworkAccess::Enabled && extension == NetworkAccess::Enabled {
            NetworkAccess::Enabled
        } else {
            NetworkAccess::Restricted
        }),
{
    if base.is_enabled() && extension.is_enabled() {
        NetworkAccess::Enabled
    } else {
        NetworkAccess::Restricted
    }
}

/// What both sides may read.
pub fn intersect_read_only_access(base: &ReadOnlyAccess, extension: &ReadOnlyAccess) -> (access:
    ReadOnlyAccess)
    ensures
        access@ == merged_access(base@, extension@),
{
    match (base, extension) {
        (ReadOnlyAccess::FullAccess, access) => access.copy(),
        (access, ReadOnlyAccess::FullAccess) => access.copy(),
        (
            ReadOnlyAccess::Restricted {
                include_platform_defaults: base_include_platform_defaults,
                readable_roots: base_readable_roots,
            },
            ReadOnlyAccess::Restricted {
                include_platform_defaults: extension_include_platform_defaults,
                readable_roots: extension_readable_roots,
            },
        ) => ReadOnlyAccess::Restricted {
            include_platform_defaults: *base_include_platform_defaults
                && *extension_include_platform_defaults,
            readable_roots: intersect_absolute_roots(base_readable_roots, extension_readable_roots),
        },
    }
}

/// Merges two policies by intersection of capabilities: the result satisfies the restrictions of
/// both `base` and `extension`.
pub fn extend_sandbox_policy(base: &SandboxPolicy, extension: &SandboxPolicy) -> (policy:
    SandboxPolicy)
    ensures
        policy@ == merged(base@, extension@),
{
    match (base, extension) {
        (SandboxPolicy::DangerFullAccess, other) => other.copy(),
        (other, SandboxPolicy::DangerFullAccess) => other.copy(),
        (
            SandboxPolicy::ExternalSandbox { network_access: base_network },
            SandboxPolicy::ExternalSandbox { network_access: extension_network },
        ) => SandboxPolicy::ExternalSandbox {
            network_access: restrict_network_access(*base_network, *extension_network),
        },
        (SandboxPolicy::ExternalSandbox { .. }, SandboxPolicy::ReadOnly { access }) => {
            SandboxPolicy::ReadOnly { access: access.copy() }
        },
        (SandboxPolicy::ReadOnly { access }, SandboxPolicy::ExternalSandbox { .. }) => {
            SandboxPolicy::ReadOnly { access: access.copy() }
        },
        (
            SandboxPolicy::ExternalSandbox { network_access: external_network_access },
            SandboxPolicy::WorkspaceWrite {
                writable_roots,
                read_only_access,
                network_access,
                exclude_tmpdir_env_var,
                exclude_slash_tmp,
            },
        ) => SandboxPolicy::WorkspaceWrite {
            writable_roots: copy_roots(writable_roots),
            read_only_access: read_only_access.copy(),
            network_access: *network_access && external_network_access.is_enabled(),
            exclude_tmpdir_env_var: *exclude_tmpdir_env_var,
            exclude_slash_tmp: *exclude_slash_tmp,
        },
        (
            SandboxPolicy::WorkspaceWrite {
                writable_roots,
                read_only_access,
                network_access,
                exclude_tmpdir_env_var,
                exclude_slash_tmp,
            },
            SandboxPolicy::ExternalSandbox { network_access: external_network_access },
        ) => SandboxPolicy::WorkspaceWrite {
            writable_roots: copy_roots(writable_roots),
            read_only_access: read_only_access.copy(),
            network_access: *network_access && external_network_access.is_enabled(),
            exclude_tmpdir_env_var: *exclude_tmpdir_env_var,
            exclude_slash_tmp: *exclude_slash_tmp,
        },
        (
            SandboxPolicy::ReadOnly { access: base_access },
            SandboxPolicy::ReadOnly { access: extension_access },
        ) => SandboxPolicy::ReadOnly {
            access: intersect_read_only_access(base_access, extension_access),
        },
        (
            SandboxPolicy::ReadOnly { access: base_access },
            SandboxPolicy::WorkspaceWrite { read_only_access, .. },
        ) => SandboxPolicy::ReadOnly {
            access: intersect_read_only_access(base_access, read_only_access),
        },
        (
            SandboxPolicy::WorkspaceWrite { read_only_access, .. },
            SandboxPolicy::ReadOnly { access: extension_access },
        ) => SandboxPolicy::ReadOnly {
            access: intersect_read_only_access(read_only_access, extension_access),
        },
        (
            SandboxPolicy::WorkspaceWrite {
                writable_roots: base_writable_roots,
                read_only_access: base_read_only_access,
                network_access: base_network_access,
                exclude_tmpdir_env_var: base_exclude_tmpdir_env_var,
                exclude_slash_tmp: base_exclude_slash_tmp,
            },
            SandboxPolicy::WorkspaceWrite {
                writable_roots: extension_writable_roots,
                read_only_access: extension_read_only_access,
                network_access: extension_network_access,
                exclude_tmpdir_env_var: extension_exclude_tmpdir_env_var,
                exclude_slash_tmp: extension_exclude_slash_tmp,
            },
        ) => SandboxPolicy::WorkspaceWrite {
            writable_roots: intersect_absolute_roots(base_writable_roots, extension_writable_roots),
            read_only_access: intersect_read_only_access(
                base_read_only_access,
                extension_read_only_access,
            ),
            network_access: *base_network_access && *extension_network_access,
            exclude_tmpdir_env_var: *base_exclude_tmpdir_env_var
                || *extension_exclude_tmpdir_env_var,
            exclude_slash_tmp: *base_exclude_slash_tmp || *extension_exclude_slash_tmp,
        },
    }
}

// ---------------------------------------------------------------------------------------------
// What a policy allows
// ---------------------------------------------------------------------------------------------

/// A thing that a command may or may not do under a policy.
pub enum Capability {
    /// To use the network.
    Network,
    /// To read everything.
    ReadAll,
    /// To read the defaults of the platform.
    ReadPlatformDefaults,
    /// To read a root that is named by its path.
    ReadRoot { path: Seq<char> },
    /// To write everything.
    WriteAll,
    /// To write the workspace.
    WriteWorkspace,
    /// To write a root that is named by its path.
    WriteRoot { path: Seq<char> },
    /// To write the directory that TMPDIR names.
    WriteTmpdir,
    /// To write /tmp.
    WriteSlashTmp,
}

/// What an access allows of reading.
pub open spec fn access_allows(access: ReadView, capability: Capability) -> bool {
    match access {
        ReadView::FullAccess => true,
        ReadView::Restricted { include_platform_defaults, readable_roots } => match capability {
            Capability::ReadPlatformDefaults => include_platform_defaults,
            Capability::ReadRoot { path } => names(readable_roots, path),
            _ => false,
        },
    }
}

/// Whether a policy allows a thing.
pub open spec fn allows(policy: PolicyView, capability: Capability) -> bool {
    match policy {
        PolicyView::DangerFullAccess => true,
        PolicyView::ExternalSandbox { network_access } => match capability {
            Capability::Network => network_access == NetworkAccess::Enabled,
            _ => true,
        },
        PolicyView::ReadOnly { access } => match capability {
            Capability::ReadAll | Capability::ReadPlatformDefaults | Capability::ReadRoot { .. } => {
                access_allows(access, capability)
            },
            _ => false,
        },
        PolicyView::WorkspaceWrite {
            writable_roots,
            read_only_access,
            network_access,
            exclude_tmpdir_env_var,
            exclude_slash_tmp,
        } => match capability {
            Capability::Network => network_access,
            Capability::ReadAll | Capability::ReadPlatformDefaults | Capability::ReadRoot { .. } => {
                access_allows(read_only_access, capability)
            },
            Capability::WriteAll => false,
            Capability::WriteWorkspace => true,
            Capability::WriteRoot { path } => names(writable_roots, path),
            Capability::WriteTmpdir => !exclude_tmpdir_env_var,
            Capability::WriteSlashTmp => !exclude_slash_tmp,
        },
    }
}

proof fn lemma_access_allows(base: ReadView, extension: ReadView, capability: Capability)
    requires
        capability is ReadAll || capability is ReadPlatformDefaults || capability is ReadRoot,
    ensures
        access_allows(merged_access(base, extension), capability) <==> access_allows(
            base,
            capability,
        ) && access_allows(extension, capability),
{
    if let (
        ReadView::Restricted { readable_roots: base_roots, .. },
        ReadView::Restricted { readable_roots: extension_roots, .. },
    ) = (base, extension) {
        lemma_common_roots(base_roots, extension_roots);
    }
}

/// The merge of two policies allows exactly what both allow.
pub proof fn lemma_merge_is_intersection(
    base: PolicyView,
    extension: PolicyView,
    capability: Capability,
)
    ensures
        allows(merged(base, extension), capability) <==> allows(base, capability) && allows(
            extension,
            capability,
        ),
{
    match (base, extension) {
        (
            PolicyView::ReadOnly { access: base_access },
            PolicyView::ReadOnly { access: extension_access },
        ) => {
            if capability is ReadAll || capability is ReadPlatformDefaults
                || capability is ReadRoot {
                lemma_access_allows(base_access, extension_access, capability);
            }
        },
        (PolicyView::ReadOnly { access }, PolicyView::WorkspaceWrite { read_only_access, .. }) => {
            if capability is ReadAll || capability is ReadPlatformDefaults
                || capability is ReadRoot {
                lemma_access_allows(access, read_only_access, capability);
            }
        },
        (PolicyView::WorkspaceWrite { read_only_access, .. }, PolicyView::ReadOnly { access }) => {
            if capability is ReadAll || capability is ReadPlatformDefaults
                || capability is ReadRoot {
                lemma_access_allows(read_only_access, access, capability);
            }
        },
        (
            PolicyView::WorkspaceWrite {
                writable_roots: base_roots,
                read_only_access: base_access,
                ..
            },
            PolicyView::WorkspaceWrite {
                writable_roots: extension_roots,
                read_only_access: extension_access,
                ..
            },
        ) => {
            lemma_common_roots(base_roots, extension_roots);
            if capability is ReadAll || capability is ReadPlatformDefaults
                || capability is ReadRoot {
                lemma_access_allows(base_access, extension_access, capability);
            }
        },
        _ => {},
    }
}

/// Whether a root holds a path: its steps are the first steps of the path.
pub open spec fn root_holds(root: Seq<char>, path: Seq<char>) -> bool {
    steps(root).len() <= steps(path).len() && steps(path).take(steps(root).len() as int) == steps(
        root,
    )
}

/// Whether one of the roots holds a path.
pub open spec fn some_root_holds(roots: Seq<Seq<char>>, path: Seq<char>) -> bool {
    exists|i: int| 0 <= i < roots.len() && root_holds(#[trigger] roots[i], path)
}

/// Whether a path lies in a root that a policy lets be read by name.
pub open spec fn readable(policy: PolicyView, path: Seq<char>) -> bool {
    match policy {
        PolicyView::DangerFullAccess | PolicyView::ExternalSandbox { .. } => true,
        PolicyView::ReadOnly { access } => access_reads(access, path),
        PolicyView::WorkspaceWrite { read_only_access, .. } => access_reads(read_only_access, path),
    }
}

/// Whether a path lies in a root that an access names.
pub open spec fn access_reads(access: ReadView, path: Seq<char>) -> bool {
    match access {
        ReadView::FullAccess => true,
        ReadView::Restricted { readable_roots, .. } => some_root_holds(readable_roots, path),
    }
}

/// Whether a path lies in a root that a policy lets be written by name.
pub open spec fn writable(policy: PolicyView, path: Seq<char>) -> bool {
    match policy {
        PolicyView::DangerFullAccess | PolicyView::ExternalSandbox { .. } => true,
        PolicyView::ReadOnly { .. } => false,
        PolicyView::WorkspaceWrite { writable_roots, .. } => some_root_holds(writable_roots, path),
    }
}

proof fn lemma_roots_hold(base: Seq<Seq<char>>, extension: Seq<Seq<char>>, path: Seq<char>)
    requires
        some_root_holds(common_roots(base, extension), path),
    ensures
        some_root_holds(base, path),
        some_root_holds(extension, path),
{
    let all = common_roots(base, extension);
    lemma_common_roots(base, extension);
    let i = choose|i: int| 0 <= i < all.len() && root_holds(#[trigger] all[i], path);
    assert(same_path(all[i], all[i]));
    assert(names(all, all[i]));
    let j = choose|j: int| 0 <= j < base.len() && same_path(#[trigger] base[j], all[i]);
    assert(root_holds(base[j], path));
    let k = choose|k: int| 0 <= k < extension.len() && same_path(#[trigger] extension[k], all[i]);
    assert(root_holds(extension[k], path));
}

proof fn lemma_access_reads(base: ReadView, extension: ReadView, path: Seq<char>)
    requires
        access_reads(merged_access(base, extension), path),
    ensures
        access_reads(base, path),
        access_reads(extension, path),
{
    if let (
        ReadView::Restricted { readable_roots: base_roots, .. },
        ReadView::Restricted { readable_roots: extension_roots, .. },
    ) = (base, extension) {
        lemma_roots_hold(base_roots, extension_roots, path);
    }
}

/// A path that the roots of a merge let be read or written lies in such a root of either side.
pub proof fn lemma_merge_opens_no_path(base: PolicyView, extension: PolicyView, path: Seq<char>)
    ensures
        readable(merged(base, extension), path) ==> readable(base, path) && readable(
            extension,
            path,
        ),
        writable(merged(base, extension), path) ==> writable(base, path) && writable(
            extension,
            path,
        ),
{
    let policy = merged(base, extension);
    match (base, extension) {
        (PolicyView::ReadOnly { access: left }, PolicyView::ReadOnly { access: right }) => {
            if readable(policy, path) {
                lemma_access_reads(left, right, path);
            }
        },
        (
            PolicyView::ReadOnly { access: left },
            PolicyView::WorkspaceWrite { read_only_access: right, .. },
        ) => {
            if readable(policy, path) {
                lemma_access_reads(left, right, path);
            }
        },
        (
            PolicyView::WorkspaceWrite { read_only_access: left, .. },
            PolicyView::ReadOnly { access: right },
        ) => {
            if readable(policy, path) {
                lemma_access_reads(left, right, path);
            }
        },
        (
            PolicyView::WorkspaceWrite {
                read_only_access: left,
                writable_roots: left_roots,
                ..
            },
            PolicyView::WorkspaceWrite {
                read_only_access: right,
                writable_roots: right_roots,
                ..
            },
        ) => {
            if readable(policy, path) {
                lemma_access_reads(left, right, path);
            }
            if writable(policy, path) {
                lemma_roots_hold(left_roots, right_roots, path);
            }
        },
        _ => {},
    }
}

/// The roots that three lists have in common are the same in either grouping, in the order of the
/// first list.
proof fn lemma_roots_associative(
    first: Seq<Seq<char>>,
    second: Seq<Seq<char>>,
    third: Seq<Seq<char>>,
)
    ensures
        common_roots(common_roots(first, second), third) == common_roots(
            first,
            common_roots(second, third),
        ),
    decreases first.len(),
{
    if first.len() > 0 {
        let shorter = first.drop_last();
        let root = first.last();
        let kept = common_roots(shorter, second);
        lemma_roots_associative(shorter, second, third);
        lemma_common_roots(second, third);
        lemma_common_roots(kept, third);
        assert(names(common_roots(second, third), root) == (names(second, root) && names(
            third,
            root,
        )));
        assert(names(common_roots(kept, third), root) == (names(kept, root) && names(third, root)));
        assert(kept.push(root).drop_last() =~= kept);
    }
}

/// What three sides may read is the same in either grouping.
proof fn lemma_access_associative(first: ReadView, second: ReadView, third: ReadView)
    ensures
        merged_access(merged_access(first, second), third) == merged_access(
            first,
            merged_access(second, third),
        ),
{
    if let (
        ReadView::Restricted { readable_roots: first_roots, .. },
        ReadView::Restricted { readable_roots: second_roots, .. },
        ReadView::Restricted { readable_roots: third_roots, .. },
    ) = (first, second, third) {
        lemma_roots_associative(first_roots, second_roots, third_roots);
    }
}

/// What a policy names for reading.
spec fn access_of(policy: PolicyView) -> ReadView {
    match policy {
        PolicyView::ReadOnly { access } => access,
        PolicyView::WorkspaceWrite { read_only_access, .. } => read_only_access,
        _ => ReadView::FullAccess,
    }
}

/// The roots that a policy names for writing.
spec fn roots_of(policy: PolicyView) -> Seq<Seq<char>> {
    match policy {
        PolicyView::WorkspaceWrite { writable_roots, .. } => writable_roots,
        _ => Seq::empty(),
    }
}

/// Three policies can be merged in either grouping: the result is the same, down to the order of
/// its roots.
pub proof fn lemma_merge_associative(first: PolicyView, second: PolicyView, third: PolicyView)
    ensures
        merged(merged(first, second), third) == merged(first, merged(second, third)),
{
    lemma_access_associative(access_of(first), access_of(second), access_of(third));
    lemma_roots_associative(roots_of(first), roots_of(second), roots_of(third));
}

/// A policy that allows everything takes nothing away from the other side.
pub proof fn lemma_merge_identity(policy: PolicyView)
    ensures
        merged(PolicyView::DangerFullAccess, policy) == policy,
        merged(policy, PolicyView::DangerFullAccess) == policy,
{
}

/// Neither the order of two policies nor the grouping of three changes what is allowed, and a
/// policy merged with itself allows what it allowed.
pub proof fn lemma_merge_order(
    first: PolicyView,
    second: PolicyView,
    third: PolicyView,
    capability: Capability,
)
    ensures
        allows(merged(first, second), capability) == allows(merged(second, first), capability),
        allows(merged(merged(first, second), third), capability) == allows(
            merged(first, merged(second, third)),
            capability,
        ),
        allows(merged(first, first), capability) == allows(first, capability),
{
    lemma_merge_is_intersection(first, second, capability);
    lemma_merge_is_intersection(second, first, capability);
    lemma_merge_is_intersection(second, third, capability);
    lemma_merge_is_intersection(merged(first, second), third, capability);
    lemma_merge_is_intersection(first, merged(second, third), capability);
    lemma_merge_is_intersection(first, first, capability);
}

// ---------------------------------------------------------------------------------------------
// When two paths are the same
// ---------------------------------------------------------------------------------------------

/// Whether a part of a path is a plain name: not empty, no dot by itself, and without a slash.
pub open spec fn is_plain(part: Seq<char>) -> bool {
    part.len() > 0 && part != "."@ && lacks(part, '/')
}

/// The steps of a path that goes on behind a slash are those of its beginning, and then those of
/// the rest. A plain name is a step of its own, also where it begins with a dot; an empty part and a
/// dot by itself are none.
pub proof fn lemma_steps_on(path: Seq<char>, rest: Seq<char>)
    ensures
        steps(path + seq!['/'] + rest) == steps(path) + steps(rest),
        is_plain(rest) ==> steps(rest) == seq![rest],
        rest.len() == 0 ==> steps(rest).len() == 0,
        rest == "."@ ==> steps(rest).len() == 0,
{
    lemma_split_around(path, '/', rest, just('/'));
    Seq::filter_distributes_over_add(
        split_where(path, just('/')),
        split_where(rest, just('/')),
        is_step(),
    );
    reveal_strlit(".");
    reveal(Seq::filter);
    if lacks(rest, '/') {
        lemma_split_whole(rest, just('/'));
        let alone = seq![rest];
        assert(alone.drop_last() =~= Seq::<Seq<char>>::empty());
        assert(alone.drop_last().filter(is_step()) =~= Seq::<Seq<char>>::empty());
        assert(alone.filter(is_step()) =~= (if is_step()(rest) {
            seq![rest]
        } else {
            Seq::empty()
        }));
    }
    assert("."@ =~= seq!['.']);
    assert(lacks("."@, '/'));
}

/// The steps of a path that is made of plain names are these names, in order.
pub proof fn lemma_path_steps(parts: Seq<Seq<char>>)
    requires
        forall|i: int| 0 <= i < parts.len() ==> is_plain(#[trigger] parts[i]),
    ensures
        steps(seq!['/'] + join(parts, seq!['/'])) == parts,
    decreases parts.len(),
{
    let empty = Seq::<char>::empty();
    lemma_steps_on(empty, empty);
    if parts.len() == 0 {
        assert(seq!['/'] + join(parts, seq!['/']) =~= empty + seq!['/'] + empty);
        assert(steps(empty) + steps(empty) =~= parts);
    } else {
        let last = parts[parts.len() - 1];
        let earlier = parts.drop_last();
        assert(is_plain(last));
        assert forall|i: int| 0 <= i < earlier.len() implies is_plain(#[trigger] earlier[i]) by {
            assert(earlier[i] == parts[i]);
        }
        if parts.len() == 1 {
            lemma_steps_on(empty, last);
            assert(seq!['/'] + join(parts, seq!['/']) =~= empty + seq!['/'] + last);
            assert(steps(empty) + seq![last] =~= parts);
        } else {
            lemma_path_steps(earlier);
            let front = seq!['/'] + join(earlier, seq!['/']);
            lemma_steps_on(front, last);
            assert(seq!['/'] + join(parts, seq!['/']) =~= front + seq!['/'] + last);
            assert(earlier + seq![last] =~= parts);
        }
    }
}

/// Two paths that are made of plain names are the same where these names are, in order, and only
/// there.
pub proof fn lemma_same_path(left: Seq<Seq<char>>, right: Seq<Seq<char>>)
    requires
        forall|i: int| 0 <= i < left.len() ==> is_plain(#[trigger] left[i]),
        forall|i: int| 0 <= i < right.len() ==> is_plain(#[trigger] right[i]),
    ensures
        same_path(seq!['/'] + join(left, seq!['/']), seq!['/'] + join(right, seq!['/'])) <==> left
            == right,
{
    lemma_path_steps(left);
    lemma_path_steps(right);
}

/// Slashes one after another, one at the end, and a dot between slashes make no difference to what
/// a path names.
pub proof fn lemma_same_path_spelled(path: Seq<char>, rest: Seq<char>)
    ensures
        same_path(path + seq!['/'], path),
        same_path(path + seq!['/'] + (seq!['/'] + rest), path + seq!['/'] + rest),
        same_path(path + seq!['/'] + ("."@ + seq!['/'] + rest), path + seq!['/'] + rest),
        same_path(path + seq!['/'] + "."@, path),
{
    let empty = Seq::<char>::empty();
    lemma_steps_on(path, empty);
    assert(path + seq!['/'] + empty =~= path + seq!['/']);
    assert(steps(path) + steps(empty) =~= steps(path));
    lemma_steps_on(path, rest);
    lemma_steps_on(empty, rest);
    assert(empty + seq!['/'] + rest =~= seq!['/'] + rest);
    lemma_steps_on(path, seq!['/'] + rest);
    assert(steps(empty) + steps(rest) =~= steps(rest));
    lemma_steps_on(path, "."@);
    lemma_steps_on("."@, rest);
    assert(steps("."@) + steps(rest) =~= steps(rest));
    lemma_steps_on(path, "."@ + seq!['/'] + rest);
    assert(steps(path) + steps("."@) =~= steps(path));
}

/// A root of plain names stays in a merge where the other side has a root of the same names, and
/// only there.
pub proof fn lemma_root_kept(base: Seq<Seq<char>>, extension: Seq<Seq<char>>, at: int)
    requires
        0 <= at < base.len(),
    ensures
        (exists|i: int|
            0 <= i < common_roots(base, extension).len() && steps(
                #[trigger] common_roots(base, extension)[i],
            ) == steps(base[at])) <==> (exists|j: int|
            0 <= j < extension.len() && steps(#[trigger] extension[j]) == steps(base[at])),
{
    lemma_common_roots(base, extension);
    let path = base[at];
    let all = common_roots(base, extension);
    assert(names(base, path)) by {
        assert(same_path(base[at], path));
    }
    assert(names(all, path) <==> names(extension, path));
    if exists|i: int| 0 <= i < all.len() && steps(#[trigger] all[i]) == steps(path) {
        let i = choose|i: int| 0 <= i < all.len() && steps(#[trigger] all[i]) == steps(path);
        assert(same_path(all[i], path));
        assert(names(extension, path));
        let j = choose|j: int| 0 <= j < extension.len() && same_path(#[trigger] extension[j], path);
        assert(steps(extension[j]) == steps(path));
    }
    if exists|j: int| 0 <= j < extension.len() && steps(#[trigger] extension[j]) == steps(path) {
        let j = choose|j: int|
            0 <= j < extension.len() && steps(#[trigger] extension[j]) == steps(path);
        assert(same_path(extension[j], path));
        assert(names(all, path));
        let i = choose|i: int| 0 <= i < all.len() && same_path(#[trigger] all[i], path);
        assert(steps(all[i]) == steps(path));
    }
}

} // verus!
