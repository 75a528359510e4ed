//! Terraform plugin — latest release ZIP from releases.hashicorp.com.
use crate::error::Error;
use crate::json::{array_field, field, members_of, member_from, or_default, str_field, Json};
use crate::paths::{fs_canonical, fs_is_file, join, parent, parent_of, path_join, path_join2, FsView};
use crate::platform::{Host, HostOS};
use crate::plugin::{env_of, exe, exe_name, resolved_dir, EnvSpec, InstallContext, Plugin,
    PluginStatus};
use crate::plugin_utils::{binary_status, binary_status_spec, exact_asset, exact_pick, pick_one, picked_one,
    any_named, first_file_named, is_first_named};
use crate::text::{chars_of, eq_str, owned, ends_with, ends_with_str};
use crate::version::{is_last_max, last_max_index, version_order_key, version_key_exec};
use crate::text::{all_digits, split};
use vstd::prelude::*;

verus! {

/// A plain `X.Y.Z` version: dot-separated, every part non-empty digits
/// (pre-releases such as `1.9.0-rc1` are not).
pub open spec fn is_plain_release(v: Seq<char>) -> bool {
    &&& v.len() > 0
    &&& forall|i: int| 0 <= i < split(v, '.').len() ==> (#[trigger] split(v, '.')[i]).len() > 0 && all_digits(
        split(v, '.')[i],
    )
}

/// True for plain `X.Y.Z` versions; rejects pre-releases like `1.9.0-rc1`
/// or `1.9.0-beta1`, which HashiCorp's index otherwise mixes in with stable ones.
pub fn is_release(v: &str) -> (r: bool)
    ensures
        r == is_plain_release(v@),
{
    let c = chars_of(v);
    if c.len() == 0 {
        return false;
    }
    let parts = crate::text::split_exec(c.as_slice(), '.');
    let ghost pv = parts@.map_values(|x: Vec<char>| x@);
    let mut i: usize = 0;
    while i < parts.len()
        invariant
            i <= parts@.len(),
            pv == parts@.map_values(|x: Vec<char>| x@),
            pv == split(v@, '.'),
            forall|j: int| 0 <= j < i ==> (#[trigger] pv[j]).len() > 0 && all_digits(pv[j]),
        decreases parts.len() - i,
    {
        assert(pv[i as int] == parts@[i as int]@);
        if parts[i].len() == 0 {
            return false;
        }
        let mut k: usize = 0;
        while k < parts[i].len()
            invariant
                i < parts@.len(),
                pv == parts@.map_values(|x: Vec<char>| x@),
                pv == split(v@, '.'),
                k <= parts@[i as int]@.len(),
                forall|q: int| 0 <= q < k ==> crate::text::is_digit(#[trigger] parts@[i as int]@[q]),
            decreases parts@[i as int]@.len() - k,
        {
            let ch = parts[i][k];
            assert(pv[i as int][k as int] == ch);
            if !('0' <= ch && ch <= '9') {
                assert(!crate::text::is_digit(pv[i as int][k as int]));
                assert(!all_digits(pv[i as int]));
                assert(!(split(v@, '.')[i as int].len() > 0 && all_digits(split(v@, '.')[i as int])));
                return false;
            }
            k = k + 1;
        }
        assert(all_digits(pv[i as int]));
        i = i + 1;
    }
    true
}

/// The names among `members` that are plain releases, in order.
pub open spec fn release_names(members: Seq<(String, Json)>) -> Seq<Seq<char>>
    decreases members.len(),
{
    if members.len() == 0 {
        Seq::empty()
    } else if is_plain_release(members.last().0@) {
        release_names(members.drop_last()).push(members.last().0@)
    } else {
        release_names(members.drop_last())
    }
}

/// Each name in `release_names(members)` is a plain release named by a member,
/// and each member named by a plain release is among them.
proof fn lemma_release_names(members: Seq<(String, Json)>)
    ensures
        forall|i: int| 0 <= i < release_names(members).len() ==> is_plain_release(
            #[trigger] release_names(members)[i],
        ) && exists|j: int| 0 <= j < members.len() && (#[trigger] members[j]).0@ == release_names(members)[i],
        forall|j: int| 0 <= j < members.len() && is_plain_release((#[trigger] members[j]).0@)
            ==> release_names(members).contains(members[j].0@),
    decreases members.len(),
{
    if members.len() > 0 {
        let d = members.drop_last();
        lemma_release_names(d);
        let rn = release_names(members);
        let rd = release_names(d);
        assert forall|i: int| 0 <= i < rn.len() implies is_plain_release(#[trigger] rn[i])
            && exists|j: int| 0 <= j < members.len() && (#[trigger] members[j]).0@ == rn[i] by {
            if i < rd.len() {
                assert(rn[i] == rd[i]);
                let j = choose|j: int| 0 <= j < d.len() && (#[trigger] d[j]).0@ == rd[i];
                assert(members[j] == d[j]);
            } else {
                assert(members[members.len() - 1] == members.last());
            }
        }
        assert forall|j: int| 0 <= j < members.len() && is_plain_release((#[trigger] members[j]).0@)
            implies rn.contains(members[j].0@) by {
            if j < d.len() {
                assert(members[j] == d[j]);
                let k = choose|k: int| 0 <= k < rd.len() && rd[k] == d[j].0@;
                assert(rn[k] == rd[k]);
            } else {
                assert(members[j] == members.last());
                assert(rn[rn.len() - 1] == members.last().0@);
            }
        }
    }
}

/// Pre-releases are never installed: every version that the newest-release
/// search chooses among is the name of a member of `versions` that is
/// non-empty and whose dot-separated parts are each one or more ASCII digits
/// (`1.10.0-rc1` or `1.9.0-beta1` is not), and every member with such a name is
/// among them.
pub proof fn law_terraform_plain_releases(members: Seq<(String, Json)>)
    ensures
        forall|i: int| 0 <= i < release_names(members).len() ==> {
            let n = #[trigger] release_names(members)[i];
            &&& exists|j: int| 0 <= j < members.len() && (#[trigger] members[j]).0@ == n
            &&& n.len() > 0
            &&& forall|p: int| 0 <= p < split(n, '.').len() ==> (#[trigger] split(n, '.')[p]).len() > 0
            &&& forall|p: int, c: int| 0 <= p < split(n, '.').len() && 0 <= c < split(n, '.')[p].len()
                ==> '0' <= #[trigger] split(n, '.')[p][c] && split(n, '.')[p][c] <= '9'
        },
        forall|j: int| 0 <= j < members.len() && (#[trigger] members[j]).0@.len() > 0
            && (forall|p: int| 0 <= p < split(members[j].0@, '.').len()
                ==> (#[trigger] split(members[j].0@, '.')[p]).len() > 0)
            && (forall|p: int, c: int| 0 <= p < split(members[j].0@, '.').len()
                && 0 <= c < split(members[j].0@, '.')[p].len()
                ==> '0' <= #[trigger] split(members[j].0@, '.')[p][c] && split(members[j].0@, '.')[p][c] <= '9')
            ==> release_names(members).contains(members[j].0@),
{
    lemma_release_names(members);
    let rn = release_names(members);
    assert forall|i: int, p: int, c: int|
        0 <= i < rn.len() && 0 <= p < split(rn[i], '.').len() && 0 <= c < split(rn[i], '.')[p].len()
        implies '0' <= #[trigger] split(rn[i], '.')[p][c] && split(rn[i], '.')[p][c] <= '9' by {
        assert(is_plain_release(rn[i]));
        assert(all_digits(split(rn[i], '.')[p]));
        assert(crate::text::is_digit(split(rn[i], '.')[p][c]));
    }
    assert forall|j: int| 0 <= j < members.len() && (#[trigger] members[j]).0@.len() > 0
        && (forall|p: int| 0 <= p < split(members[j].0@, '.').len()
            ==> (#[trigger] split(members[j].0@, '.')[p]).len() > 0)
        && (forall|p: int, c: int| 0 <= p < split(members[j].0@, '.').len()
            && 0 <= c < split(members[j].0@, '.')[p].len()
            ==> '0' <= #[trigger] split(members[j].0@, '.')[p][c] && split(members[j].0@, '.')[p][c] <= '9')
        implies rn.contains(members[j].0@) by {
        let n = members[j].0@;
        assert forall|p: int| 0 <= p < split(n, '.').len() implies (#[trigger] split(n, '.')[p]).len() > 0
            && all_digits(split(n, '.')[p]) by {
            assert forall|c: int| 0 <= c < split(n, '.')[p].len() implies crate::text::is_digit(
                #[trigger] split(n, '.')[p][c],
            ) by {
                assert('0' <= split(n, '.')[p][c] && split(n, '.')[p][c] <= '9');
            }
        }
        assert(is_plain_release(n));
    }
}

/// The numeric key of a version: its dot-separated parts as numbers.
pub fn version_key(v: &str) -> (r: Vec<u32>)
    ensures
        r@ == version_order_key(v@),
{
    version_key_exec(chars_of(v).as_slice())
}

/// HashiCorp's name for an OS family.
pub open spec fn hashicorp_os(os: HostOS) -> Option<Seq<char>> {
    match os {
        HostOS::Windows => Some("windows"@),
        HostOS::Linux => Some("linux"@),
        HostOS::MacOS => Some("darwin"@),
        HostOS::Other => None,
    }
}

/// HashiCorp's name for a CPU label.
pub open spec fn hashicorp_arch(arch: Seq<char>) -> Seq<char> {
    if arch == "aarch64"@ {
        "arm64"@
    } else {
        "amd64"@
    }
}

/// A build for `os`/`arch` with a URL.
pub open spec fn is_build_for(b: Json, os: Seq<char>, arch: Seq<char>) -> bool {
    &&& or_default(str_field(b, "os"@), ""@) == os
    &&& or_default(str_field(b, "arch"@), ""@) == arch
    &&& or_default(str_field(b, "url"@), ""@).len() > 0
}

/// The first matching build from index `i` on.
pub open spec fn first_build(builds: Seq<Json>, os: Seq<char>, arch: Seq<char>, i: int) -> Option<Json>
    decreases builds.len() - i,
{
    if i < 0 || i >= builds.len() {
        None
    } else if is_build_for(builds[i], os, arch) {
        Some(builds[i])
    } else {
        first_build(builds, os, arch, i + 1)
    }
}

/// The builds listed for `version` in the `versions` object.
pub open spec fn builds_of(members: Seq<(String, Json)>, version: Seq<char>) -> Seq<Json> {
    match member_from(members, version, 0) {
        Some(v) => match array_field(v, "builds"@) {
            Some(b) => b,
            None => Seq::empty(),
        },
        None => Seq::empty(),
    }
}

/// The `versions` members of the index (empty when missing).
pub open spec fn terraform_versions(meta: Json) -> Seq<(String, Json)> {
    match field(meta, "versions"@) {
        Some(v) => match members_of(v) {
            Some(m) => m,
            None => Seq::empty(),
        },
        None => Seq::empty(),
    }
}

/// The newest plain release in the index (`https://releases.hashicorp.com/terraform/index.json`)
/// and the URL of its build for this machine.
pub fn resolve_terraform_download(meta: &Json, host: &Host) -> (r: Result<(String, String), Error>)
    ensures
        ({
            let ms = terraform_versions(*meta);
            let names = release_names(ms);
            if ms.len() == 0 {
                r matches Err(Error::UnexpectedMetadata { .. })
            } else if names.len() == 0 {
                r matches Err(Error::NoRelease { .. })
            } else if hashicorp_os(host.os) is None {
                r matches Err(Error::UnsupportedOs { .. })
            } else {
                exists|i: int|
                    #![trigger names[i]]
                    is_last_max(names.map_values(|n: Seq<char>| version_order_key(n)), i) && match first_build(
                        builds_of(ms, names[i]),
                        hashicorp_os(host.os).unwrap(),
                        hashicorp_arch(host.arch@),
                        0,
                    ) {
                        Some(b) => r matches Ok((url, version)) && version@ == names[i] && url@ == or_default(
                            str_field(b, "url"@),
                            ""@,
                        ),
                        None => r matches Err(Error::NoRelease { .. }),
                    }
            }
        }),
{
    let empty: Vec<(String, Json)> = Vec::new();
    let members: &Vec<(String, Json)> = match meta.get("versions") {
        Some(v) => match v.as_object() {
            Some(m) => m,
            None => &empty,
        },
        None => &empty,
    };
    assert(members@ == terraform_versions(*meta));
    if members.len() == 0 {
        return Err(Error::UnexpectedMetadata { tool: "Terraform" });
    }
    let ghost ms = members@;
    let mut names: Vec<String> = Vec::new();
    let mut keys: Vec<Vec<u32>> = Vec::new();
    let mut i: usize = 0;
    while i < members.len()
        invariant
            i <= ms.len(),
            ms == members@,
            names@.map_values(|s: String| s@) == release_names(ms.take(i as int)),
            keys@.len() == names@.len(),
            forall|j: int| 0 <= j < keys@.len() ==> #[trigger] keys@[j]@ == version_order_key(names@[j]@),
        decreases members.len() - i,
    {
        let ghost before = names@.map_values(|s: String| s@);
        assert(ms.take(i + 1).drop_last() =~= ms.take(i as int));
        if is_release(members[i].0.as_str()) {
            keys.push(version_key(members[i].0.as_str()));
            names.push(owned(members[i].0.as_str()));
            assert(names@.map_values(|s: String| s@) =~= before.push(ms[i as int].0@));
        }
        i = i + 1;
    }
    assert(ms.take(i as int) =~= ms);
    if names.len() == 0 {
        return Err(Error::NoRelease { tool: "Terraform", detail: owned("no stable versions") });
    }
    let best = last_max_index(&keys);
    let ghost nv = names@.map_values(|s: String| s@);
    assert(keys@.map_values(|k: Vec<u32>| k@) =~= nv.map_values(|n: Seq<char>| version_order_key(n)));
    let version = owned(names[best].as_str());
    assert(version@ == nv[best as int]);
    let goos = match host.os {
        HostOS::Windows => "windows",
        HostOS::Linux => "linux",
        HostOS::MacOS => "darwin",
        HostOS::Other => {
            return Err(Error::UnsupportedOs { tool: "Terraform" });
        },
    };
    let goarch = if eq_str(chars_of(host.arch.as_str()).as_slice(), "aarch64") {
        "arm64"
    } else {
        "amd64"
    };
    let empty_builds: Vec<Json> = Vec::new();
    let builds: &Vec<Json> = match crate::json::member_exec(members, version.as_str()) {
        Some(v) => match v.array_field("builds") {
            Some(b) => b,
            None => &empty_builds,
        },
        None => &empty_builds,
    };
    assert(builds@ == builds_of(ms, nv[best as int]));
    proof {
        assert(is_last_max(nv.map_values(|n: Seq<char>| version_order_key(n)), best as int));
    }
    let mut k: usize = 0;
    while k < builds.len()
        invariant
            k <= builds@.len(),
            ms == terraform_versions(*meta),
            nv == release_names(ms),
            0 <= best < nv.len(),
            is_last_max(nv.map_values(|n: Seq<char>| version_order_key(n)), best as int),
            version@ == nv[best as int],
            builds@ == builds_of(ms, nv[best as int]),
            hashicorp_os(host.os) == Some(goos@),
            goarch@ == hashicorp_arch(host.arch@),
            first_build(builds@, goos@, goarch@, 0) == first_build(builds@, goos@, goarch@, k as int),
        decreases builds.len() - k,
    {
        let b = &builds[k];
        let os_ok = match b.str_field("os") {
            Some(s) => eq_str(chars_of(s).as_slice(), goos),
            None => eq_str(chars_of("").as_slice(), goos),
        };
        let arch_ok = match b.str_field("arch") {
            Some(s) => eq_str(chars_of(s).as_slice(), goarch),
            None => eq_str(chars_of("").as_slice(), goarch),
        };
        let url = match b.str_field("url") {
            Some(u) => owned(u),
            None => owned(""),
        };
        proof {
            reveal_strlit("");
        }
        if os_ok && arch_ok && !url.as_str().is_empty() {
            assert(is_build_for(builds@[k as int], goos@, goarch@));
            assert(*b == builds@[k as int]);
            assert(first_build(builds@, goos@, goarch@, 0) == Some(builds@[k as int]));
            return Ok((url, version));
        }
        k = k + 1;
    }
    assert(first_build(builds@, goos@, goarch@, 0) is None);
    Err(Error::NoRelease { tool: "Terraform", detail: version })
}

/// `terraform` (`terraform.exe` on Windows) in the install folder.
pub open spec fn terraform_bin(os: HostOS, dir: Seq<char>) -> Seq<char> {
    join(os, dir, exe(os, "terraform"@))
}

pub struct TerraformPlugin;

impl Plugin for TerraformPlugin {
    open spec fn spec_id(&self) -> Seq<char> {
        "terraform"@
    }

    fn id(&self) -> (r: &'static str) {
        "terraform"
    }

    fn name(&self) -> (r: &'static str)
        ensures
            r@ == "Terraform"@,
    {
        "Terraform"
    }

    fn description(&self) -> (r: &'static str)
        ensures
            r@ == "Download latest Terraform ZIP and add it to PATH."@,
    {
        "Download latest Terraform ZIP and add it to PATH."
    }

    fn status(&self, ctx: &InstallContext, fs: &FsView) -> (r: PluginStatus)
        ensures
            r@ == binary_status_spec(
                fs@,
                terraform_bin(ctx.host.os, ctx.install_dir@),
                ctx.install_dir@,
                "Install dir exists but terraform binary is missing"@,
            ),
    {
        let bin = path_join(ctx.host.os, ctx.install_dir.as_str(), exe_name(ctx.host.os, "terraform").as_str());
        binary_status(fs, bin.as_str(), ctx.install_dir.as_str(), "Install dir exists but terraform binary is missing")
    }

    /// The install folder on PATH.
    fn env_spec(&self, ctx: &InstallContext, fs: &FsView) -> (r: EnvSpec)
        ensures
            r@ == (
                seq![ctx.install_dir@],
                Seq::<(Seq<char>, Seq<char>)>::empty(),
            ),
    {
        let r = env_of(vec![owned(ctx.install_dir.as_str())], Vec::new());
        assert(r@.0 =~= seq![ctx.install_dir@]);
        assert(r@.1 =~= Seq::<(Seq<char>, Seq<char>)>::empty());
        r
    }
}

} // verus!
