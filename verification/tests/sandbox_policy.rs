use codex_kit::sandbox_policy::extend_sandbox_policy;
use codex_kit::sandbox_policy::intersect_absolute_roots;
use codex_kit::sandbox_policy::intersect_read_only_access;
use codex_kit::sandbox_policy::restrict_network_access;
use codex_kit::sandbox_policy::AbsolutePathBuf;
use codex_kit::sandbox_policy::NetworkAccess;
use codex_kit::sandbox_policy::ReadOnlyAccess;
use codex_kit::sandbox_policy::SandboxPolicy;

fn inside(dir: &tempfile::TempDir, name: &str) -> AbsolutePathBuf {
    let path = dir.path().join(name).to_string_lossy().to_string();
    AbsolutePathBuf::try_from(path).expect("absolute path")
}

fn path(text: &str) -> AbsolutePathBuf {
    AbsolutePathBuf::try_from(text.to_string()).expect("absolute path")
}

#[test]
fn extend_sandbox_policy_combines_read_only_and_workspace_write_as_read_only() {
    let tempdir = tempfile::tempdir().expect("tempdir");
    let base_read_root = inside(&tempdir, "base-read");

    let merged = extend_sandbox_policy(
        &SandboxPolicy::ReadOnly {
            access: ReadOnlyAccess::Restricted {
                include_platform_defaults: false,
                readable_roots: vec![base_read_root],
            },
        },
        &SandboxPolicy::WorkspaceWrite {
            writable_roots: vec![],
            read_only_access: ReadOnlyAccess::Restricted {
                include_platform_defaults: true,
                readable_roots: Vec::new(),
            },
            network_access: true,
            exclude_tmpdir_env_var: false,
            exclude_slash_tmp: false,
        },
    );

    assert_eq!(
        merged,
        SandboxPolicy::ReadOnly {
            access: ReadOnlyAccess::Restricted {
                include_platform_defaults: false,
                readable_roots: Vec::new(),
            },
        }
    );
}

#[test]
fn extend_sandbox_policy_uses_extension_when_base_is_danger_full_access() {
    let tempdir = tempfile::tempdir().expect("tempdir");
    let extension_root = inside(&tempdir, "extension");

    let merged = extend_sandbox_policy(
        &SandboxPolicy::DangerFullAccess,
        &SandboxPolicy::WorkspaceWrite {
            writable_roots: vec![extension_root.clone()],
            read_only_access: ReadOnlyAccess::FullAccess,
            network_access: false,
            exclude_tmpdir_env_var: false,
            exclude_slash_tmp: true,
        },
    );

    assert_eq!(
        merged,
        SandboxPolicy::WorkspaceWrite {
            writable_roots: vec![extension_root],
            read_only_access: ReadOnlyAccess::FullAccess,
            network_access: false,
            exclude_tmpdir_env_var: false,
            exclude_slash_tmp: true,
        }
    );
}

#[test]
fn extend_sandbox_policy_external_and_workspace_write_keeps_workspace_write_restrictions() {
    let tempdir = tempfile::tempdir().expect("tempdir");
    let workspace_root = inside(&tempdir, "workspace");
    let read_root = inside(&tempdir, "read");

    let merged = extend_sandbox_policy(
        &SandboxPolicy::ExternalSandbox { network_access: NetworkAccess::Restricted },
        &SandboxPolicy::WorkspaceWrite {
            writable_roots: vec![workspace_root.clone()],
            read_only_access: ReadOnlyAccess::Restricted {
                include_platform_defaults: true,
                readable_roots: vec![read_root.clone()],
            },
            network_access: true,
            exclude_tmpdir_env_var: false,
            exclude_slash_tmp: false,
        },
    );

    assert_eq!(
        merged,
        SandboxPolicy::WorkspaceWrite {
            writable_roots: vec![workspace_root],
            read_only_access: ReadOnlyAccess::Restricted {
                include_platform_defaults: true,
                readable_roots: vec![read_root],
            },
            network_access: false,
            exclude_tmpdir_env_var: false,
            exclude_slash_tmp: false,
        }
    );
}

#[test]
fn extend_sandbox_policy_external_and_read_only_returns_read_only() {
    let tempdir = tempfile::tempdir().expect("tempdir");
    let read_root = inside(&tempdir, "read");

    let merged = extend_sandbox_policy(
        &SandboxPolicy::ExternalSandbox { network_access: NetworkAccess::Enabled },
        &SandboxPolicy::ReadOnly {
            access: ReadOnlyAccess::Restricted {
                include_platform_defaults: true,
                readable_roots: vec![read_root.clone()],
            },
        },
    );

    assert_eq!(
        merged,
        SandboxPolicy::ReadOnly {
            access: ReadOnlyAccess::Restricted {
                include_platform_defaults: true,
                readable_roots: vec![read_root],
            },
        }
    );
}

#[test]
fn extend_sandbox_policy_intersects_workspace_roots_and_restricts_network_access() {
    let tempdir = tempfile::tempdir().expect("tempdir");
    let shared_root = inside(&tempdir, "shared");
    let base_root = inside(&tempdir, "base");
    let extension_root = inside(&tempdir, "extension");

    let merged = extend_sandbox_policy(
        &SandboxPolicy::WorkspaceWrite {
            writable_roots: vec![shared_root.clone(), base_root],
            read_only_access: ReadOnlyAccess::FullAccess,
            network_access: false,
            exclude_tmpdir_env_var: true,
            exclude_slash_tmp: true,
        },
        &SandboxPolicy::WorkspaceWrite {
            writable_roots: vec![shared_root.clone(), extension_root.clone()],
            read_only_access: ReadOnlyAccess::Restricted {
                include_platform_defaults: false,
                readable_roots: vec![extension_root.clone()],
            },
            network_access: true,
            exclude_tmpdir_env_var: false,
            exclude_slash_tmp: false,
        },
    );

    assert_eq!(
        merged,
        SandboxPolicy::WorkspaceWrite {
            writable_roots: vec![shared_root],
            read_only_access: ReadOnlyAccess::Restricted {
                include_platform_defaults: false,
                readable_roots: vec![extension_root],
            },
            network_access: false,
            exclude_tmpdir_env_var: true,
            exclude_slash_tmp: true,
        }
    );
}

#[test]
fn extend_sandbox_policy_keeps_network_access_enabled_only_when_both_policies_enable_it() {
    let tempdir = tempfile::tempdir().expect("tempdir");
    let shared_root = inside(&tempdir, "shared");
    let base_root = inside(&tempdir, "base");
    let extension_root = inside(&tempdir, "extension");

    let merged = extend_sandbox_policy(
        &SandboxPolicy::WorkspaceWrite {
            writable_roots: vec![base_root, shared_root.clone()],
            read_only_access: ReadOnlyAccess::FullAccess,
            network_access: true,
            exclude_tmpdir_env_var: true,
            exclude_slash_tmp: true,
        },
        &SandboxPolicy::WorkspaceWrite {
            writable_roots: vec![shared_root.clone(), extension_root],
            read_only_access: ReadOnlyAccess::FullAccess,
            network_access: true,
            exclude_tmpdir_env_var: true,
            exclude_slash_tmp: true,
        },
    );

    assert_eq!(
        merged,
        SandboxPolicy::WorkspaceWrite {
            writable_roots: vec![shared_root],
            read_only_access: ReadOnlyAccess::FullAccess,
            network_access: true,
            exclude_tmpdir_env_var: true,
            exclude_slash_tmp: true,
        }
    );
}

#[test]
fn network_access_needs_both() {
    let (enabled, restricted) = (NetworkAccess::Enabled, NetworkAccess::Restricted);
    assert_eq!(restrict_network_access(enabled, enabled), enabled);
    assert_eq!(restrict_network_access(enabled, restricted), restricted);
    assert_eq!(restrict_network_access(restricted, enabled), restricted);
    assert_eq!(restrict_network_access(restricted, restricted), restricted);
    assert!(enabled.is_enabled());
    assert!(!restricted.is_enabled());
}

#[test]
fn roots_are_shared_once_each_and_in_order() {
    let base = vec![path("/b"), path("/a"), path("/b/"), path("/c")];
    let extension = vec![path("/a"), path("/b/./"), path("/d")];
    let shared = intersect_absolute_roots(&base, &extension);
    assert_eq!(shared, vec![path("/b"), path("/a")]);
    assert_eq!(path("/b//x/."), path("/b/x"));
    assert!(AbsolutePathBuf::try_from("relative".to_string()).is_err());
}

#[test]
fn full_reading_access_is_no_restriction() {
    let some = ReadOnlyAccess::Restricted {
        include_platform_defaults: true,
        readable_roots: vec![path("/r")],
    };
    assert_eq!(intersect_read_only_access(&ReadOnlyAccess::FullAccess, &some), some);
    assert_eq!(intersect_read_only_access(&some, &ReadOnlyAccess::FullAccess), some);
    assert_eq!(intersect_read_only_access(&some, &some), some);
    assert_eq!(
        intersect_read_only_access(&ReadOnlyAccess::FullAccess, &ReadOnlyAccess::FullAccess),
        ReadOnlyAccess::FullAccess
    );
}

#[test]
fn full_access_changes_nothing() {
    let policies = vec![
        SandboxPolicy::DangerFullAccess,
        SandboxPolicy::ReadOnly { access: ReadOnlyAccess::FullAccess },
        SandboxPolicy::ExternalSandbox { network_access: NetworkAccess::Enabled },
        SandboxPolicy::WorkspaceWrite {
            writable_roots: vec![path("/w")],
            read_only_access: ReadOnlyAccess::FullAccess,
            network_access: true,
            exclude_tmpdir_env_var: false,
            exclude_slash_tmp: true,
        },
    ];
    for policy in &policies {
        assert_eq!(&extend_sandbox_policy(policy, &SandboxPolicy::DangerFullAccess), policy);
        assert_eq!(&extend_sandbox_policy(&SandboxPolicy::DangerFullAccess, policy), policy);
    }
}

#[test]
fn three_policies_merge_in_either_grouping() {
    let write = |roots: &[&str], readable: &[&str]| SandboxPolicy::WorkspaceWrite {
        writable_roots: roots.iter().map(|root| path(root)).collect(),
        read_only_access: ReadOnlyAccess::Restricted {
            include_platform_defaults: true,
            readable_roots: readable.iter().map(|root| path(root)).collect(),
        },
        network_access: true,
        exclude_tmpdir_env_var: false,
        exclude_slash_tmp: false,
    };
    let all = vec![
        write(&["/c", "/a", "/b", "/a/"], &["/r", "/s"]),
        write(&["/a", "/b/.", "/c"], &["/s", "/r"]),
        write(&["/b", "/c"], &["/s", "/t"]),
        SandboxPolicy::ReadOnly { access: ReadOnlyAccess::FullAccess },
        SandboxPolicy::ExternalSandbox { network_access: NetworkAccess::Restricted },
        SandboxPolicy::DangerFullAccess,
    ];
    for first in &all {
        for second in &all {
            for third in &all {
                let left = extend_sandbox_policy(&extend_sandbox_policy(first, second), third);
                let right = extend_sandbox_policy(first, &extend_sandbox_policy(second, third));
                assert_eq!(left, right);
            }
        }
    }
    let merged = extend_sandbox_policy(&extend_sandbox_policy(&all[0], &all[1]), &all[2]);
    assert_eq!(merged, write(&["/c", "/b"], &["/s"]));
}
