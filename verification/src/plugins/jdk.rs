//! JDK plugin — Eclipse Temurin builds from the Adoptium API.
use crate::error::Error;
use crate::json::{array_field, array_of, bool_field, field, members_of, member_from, or_default, str_field, Json};
use crate::paths::{fs_canonical, fs_has_contents, fs_is_dir, fs_is_file, join, parent, parent_of, path_join, path_join2, path_join3, FsView};
use crate::platform::{Host, HostOS};
use crate::plugin::{dir_of, env_of, exe, exe_name, resolved_dir, EnvSpec, InstallContext, InstallState, Plugin,
    PluginStatus};
use crate::plugin_utils::{binary_status, binary_status_spec};
use crate::text::{all_digits, chars_of, decimal, decimal_string, digits_value, eq_str, owned, split, starts_with, trim, trim_set, trim_start_set};
use vstd::prelude::*;

verus! {

/// Default LTS line when `install jdk` is run without `--version`.
pub open spec fn default_jdk_feature() -> u32 {
    25
}

/// What `parse_jdk_feature` makes of a lowercased, trimmed request: an
/// optional `jdk` prefix (and dashes after it) dropped, then the digits
/// before the first dot; a feature below 8 is refused.
pub open spec fn jdk_feature_spec(lowered: Seq<char>) -> Result<u32, ()> {
    let raw = if starts_with(lowered, "jdk"@) {
        trim_start_set(lowered.skip(3), seq!['-'])
    } else {
        lowered
    };
    let major = split(raw, '.')[0];
    if major.len() == 0 || !all_digits(major) {
        Err(())
    } else {
        let feature: u32 = if digits_value(major) <= u32::MAX { digits_value(major) as u32 } else { 0 };
        if feature < 8 {
            Err(())
        } else {
            Ok(feature)
        }
    }
}

/// The feature line named by a request already trimmed and lowercased;
/// `given` is the request as typed, for the error.
pub fn jdk_feature_of(lowered: &str, given: &str) -> (r: Result<u32, Error>)
    ensures
        match jdk_feature_spec(lowered@) {
            Ok(f) => r == Ok::<u32, Error>(f),
            Err(_) => r matches Err(e) && (e is InvalidVersion || e is UnsupportedJdkFeature),
        },
{
    let l = chars_of(lowered);
    let raw = if crate::text::starts_with_str(l.as_slice(), "jdk") {
        proof {
            reveal_strlit("jdk");
        }
        let rest = crate::text::slice_of(l.as_slice(), 3, l.len());
        assert(rest@ =~= lowered@.skip(3));
        let dash: Vec<char> = vec!['-'];
        assert(dash@ =~= seq!['-']);
        crate::text::trim_start_set_exec(rest.as_slice(), dash.as_slice())
    } else {
        l
    };
    let parts = crate::text::split_exec(raw.as_slice(), '.');
    proof {
        crate::text::lemma_split_len_pos(raw@, '.');
    }
    assert(parts@.map_values(|v: Vec<char>| v@)[0] == parts@[0]@);
    let major = &parts[0];
    let ghost spec_raw = if starts_with(lowered@, "jdk"@) {
        trim_start_set(lowered@.skip(3), seq!['-'])
    } else {
        lowered@
    };
    assert(raw@ == spec_raw);
    assert(major@ == split(spec_raw, '.')[0]);
    let mut k: usize = 0;
    while k < major.len()
        invariant
            k <= major@.len(),
            major@ == split(spec_raw, '.')[0],
            spec_raw == (if starts_with(lowered@, "jdk"@) {
                trim_start_set(lowered@.skip(3), seq!['-'])
            } else {
                lowered@
            }),
            forall|q: int| 0 <= q < k ==> crate::text::is_digit(#[trigger] major@[q]),
        decreases major@.len() - k,
    {
        if !('0' <= major[k] && major[k] <= '9') {
            assert(!crate::text::is_digit(major@[k as int]));
            assert(!all_digits(split(spec_raw, '.')[0]));
            return Err(Error::InvalidVersion { tool: "JDK", given: owned(given) });
        }
        k = k + 1;
    }
    if major.len() == 0 {
        return Err(Error::InvalidVersion { tool: "JDK", given: owned(given) });
    }
    let feature: u32 = match crate::text::parse_u32_exec(major.as_slice()) {
        Some(n) => n,
        None => 0,
    };
    if feature < 8 {
        return Err(Error::UnsupportedJdkFeature { feature });
    }
    Ok(feature)
}

/// Parse a feature version from `--version` (`25` or `25.0.1` -> 25;
/// `jdk-17`, `JDK17` -> 17); none or blank gives the default line.
pub fn parse_jdk_feature(version: Option<&str>) -> (r: Result<u32, Error>)
    ensures
        match version {
            None => r == Ok::<u32, Error>(default_jdk_feature()),
            Some(v) => if trim(v@).len() == 0 {
                r == Ok::<u32, Error>(default_jdk_feature())
            } else {
                match jdk_feature_spec(crate::text::lowercase(trim(v@))) {
                    Ok(f) => r == Ok::<u32, Error>(f),
                    Err(_) => r is Err,
                }
            },
        },
{
    match version {
        None => Ok(25),
        Some(v) => {
            let t = crate::text::trim_exec(chars_of(v).as_slice());
            if t.len() == 0 {
                return Ok(25);
            }
            let lowered = crate::text::string_of(crate::text::to_lowercase(t.as_slice()).as_slice());
            jdk_feature_of(lowered.as_str(), v)
        },
    }
}

/// The CPU labels Temurin publishes builds for.
pub open spec fn temurin_arch_ok(arch: Seq<char>) -> bool {
    arch == "x64"@ || arch == "aarch64"@ || arch == "x86"@
}

/// The Adoptium URL of the latest GA Temurin JDK of a feature line.
pub open spec fn temurin_url(feature: u32, os_slug: Seq<char>, arch: Seq<char>) -> Seq<char> {
    "https://api.adoptium.net/v3/binary/latest/"@ + decimal(feature as nat) + "/ga/"@ + os_slug + "/"@
        + arch + "/jdk/hotspot/normal/eclipse"@
}

/// Stable Adoptium URL for the latest GA Temurin JDK on this OS/arch.
pub fn temurin_download_url(feature: u32, host: &Host) -> (r: Result<String, Error>)
    ensures
        match crate::platform::adoptium_slug(host.os) {
            None => r matches Err(Error::UnsupportedOs { .. }),
            Some(slug) => if temurin_arch_ok(host.arch@) {
                r matches Ok(u) && u@ == temurin_url(feature, slug, host.arch@)
            } else {
                r matches Err(Error::UnsupportedArch { arch, .. }) && arch@ == host.arch@
            },
        },
{
    let slug = match crate::platform::adoptium_os(host.os) {
        Ok(s) => s,
        Err(e) => {
            return Err(e);
        },
    };
    let a = chars_of(host.arch.as_str());
    if !(eq_str(a.as_slice(), "x64") || eq_str(a.as_slice(), "aarch64") || eq_str(a.as_slice(), "x86")) {
        return Err(Error::UnsupportedArch { tool: "Temurin JDK", arch: owned(host.arch.as_str()) });
    }
    let mut url = owned("https://api.adoptium.net/v3/binary/latest/");
    url.append(decimal_string(feature as u64).as_str());
    url.append("/ga/");
    url.append(slug);
    url.append("/");
    url.append(host.arch.as_str());
    url.append("/jdk/hotspot/normal/eclipse");
    Ok(url)
}

/// The value after `JAVA_VERSION=` on the first line that starts with it,
/// trimmed and unquoted, unless that is empty.
pub open spec fn release_java_version(text: Seq<char>) -> Option<Seq<char>> {
    match first_prefixed(crate::text::lines(text), "JAVA_VERSION="@, 0) {
        Some(l) => {
            let v = trim_set(trim(l.skip("JAVA_VERSION="@.len() as int)), seq!['"']);
            if v.len() == 0 {
                None
            } else {
                Some(v)
            }
        },
        None => None,
    }
}

/// The first line from index `i` on that starts with `p`.
pub open spec fn first_prefixed(ls: Seq<Seq<char>>, p: Seq<char>, i: int) -> Option<Seq<char>>
    decreases ls.len() - i,
{
    if i < 0 || i >= ls.len() {
        None
    } else if starts_with(ls[i], p) {
        Some(ls[i])
    } else {
        first_prefixed(ls, p, i + 1)
    }
}

/// Extract the value of `JAVA_VERSION="..."` from a JDK `release` file.
pub fn parse_release_java_version(text: &str) -> (r: Option<String>)
    ensures
        match r {
            Some(v) => release_java_version(text@) == Some(v@),
            None => release_java_version(text@) is None,
        },
{
    let ls = crate::text::lines_exec(chars_of(text).as_slice());
    let ghost lv = ls@.map_values(|v: Vec<char>| v@);
    let key = chars_of("JAVA_VERSION=");
    let mut i: usize = 0;
    while i < ls.len()
        invariant
            i <= ls@.len(),
            lv == ls@.map_values(|v: Vec<char>| v@),
            lv == crate::text::lines(text@),
            key@ == "JAVA_VERSION="@,
            first_prefixed(lv, key@, 0) == first_prefixed(lv, key@, i as int),
        decreases ls.len() - i,
    {
        assert(lv[i as int] == ls@[i as int]@);
        if crate::text::starts_with_exec(ls[i].as_slice(), key.as_slice()) {
            let l = &ls[i];
            let klen = key.len();
            let llen = l.len();
            let rest = crate::text::slice_of(l.as_slice(), klen, llen);
            assert(rest@ =~= l@.skip(key@.len() as int));
            let t = crate::text::trim_exec(rest.as_slice());
            let q: Vec<char> = vec!['"'];
            assert(q@ =~= seq!['"']);
            let v = crate::text::trim_set_exec(t.as_slice(), q.as_slice());
            if v.len() == 0 {
                return None;
            }
            return Some(crate::text::string_of(v.as_slice()));
        }
        i = i + 1;
    }
    None
}

/// `bin/java.exe` on Windows, `bin/java` elsewhere.
pub open spec fn java_bin(os: HostOS, dir: Seq<char>) -> Seq<char> {
    join(os, join(os, dir, "bin"@), exe(os, "java"@))
}

/// The feature line to look up: the leading number of the installed
/// version (`21.0.2` -> 21) when it is 9 or later, else the default line.
pub open spec fn latest_feature_spec(installed: Option<Seq<char>>) -> u32 {
    match installed {
        Some(v) => match crate::text::parse_u32(crate::text::split(v, '.')[0]) {
            Some(f) => if f >= 9 {
                f
            } else {
                default_jdk_feature()
            },
            None => default_jdk_feature(),
        },
        None => default_jdk_feature(),
    }
}

/// The feature line whose latest build is looked up.
pub fn latest_feature(installed: Option<&str>) -> (r: u32)
    ensures
        r == latest_feature_spec(
            match installed {
                Some(v) => Some(v@),
                None => None,
            },
        ),
{
    match installed {
        None => 25,
        Some(v) => {
            let pieces = crate::text::split_exec(chars_of(v).as_slice(), '.');
            proof {
                crate::text::lemma_split_len_pos(v@, '.');
            }
            assert(pieces@.len() > 0);
            match crate::text::parse_u32_exec(pieces[0].as_slice()) {
                Some(f) => if f >= 9 {
                    f
                } else {
                    25
                },
                None => 25,
            }
        },
    }
}

/// The Adoptium assets query for the latest build of a feature line.
pub fn adoptium_latest_url(feature: u32, host: &Host) -> (r: Result<String, Error>)
    ensures
        match crate::platform::adoptium_slug(host.os) {
            None => r matches Err(Error::UnsupportedOs { .. }),
            Some(slug) => r matches Ok(u) && u@ == "https://api.adoptium.net/v3/assets/latest/"@ + decimal(
                feature as nat,
            ) + "/hotspot?architecture="@ + host.arch@ + "&image_type=jdk&os="@ + slug + "&vendor=eclipse"@,
        },
{
    let slug = match crate::platform::adoptium_os(host.os) {
        Ok(s) => s,
        Err(e) => {
            return Err(e);
        },
    };
    let mut url = owned("https://api.adoptium.net/v3/assets/latest/");
    url.append(decimal_string(feature as u64).as_str());
    url.append("/hotspot?architecture=");
    url.append(host.arch.as_str());
    url.append("&image_type=jdk&os=");
    url.append(slug);
    url.append("&vendor=eclipse");
    Ok(url)
}

/// A JSON number read as a `u32`.
pub open spec fn json_u32(j: Option<Json>) -> Option<u32> {
    match j {
        Some(Json::Number(n)) => crate::text::parse_u32(n@),
        _ => None,
    }
}

/// `major.minor.security` of the first asset's `version`, when all three
/// are numbers.
pub open spec fn temurin_label(data: Json) -> Option<Seq<char>> {
    match array_of(data) {
        Some(a) => if a.len() > 0 {
            match field(a[0], "version"@) {
                Some(v) => match (
                    json_u32(field(v, "major"@)),
                    json_u32(field(v, "minor"@)),
                    json_u32(field(v, "security"@)),
                ) {
                    (Some(x), Some(y), Some(z)) => Some(
                        decimal(x as nat) + "."@ + decimal(y as nat) + "."@ + decimal(z as nat),
                    ),
                    _ => None,
                },
                None => None,
            }
        } else {
            None
        },
        None => None,
    }
}

fn json_u32_exec(j: Option<&Json>) -> (r: Option<u32>)
    ensures
        r == json_u32(
            match j {
                Some(x) => Some(*x),
                None => None,
            },
        ),
{
    match j {
        Some(Json::Number(n)) => crate::text::parse_u32_exec(chars_of(n.as_str()).as_slice()),
        _ => None,
    }
}

/// The latest GA Temurin build of the Adoptium assets answer, as
/// `major.minor.security`.
pub fn temurin_version_label(data: &Json) -> (r: Option<String>)
    ensures
        match r {
            Some(l) => temurin_label(*data) == Some(l@),
            None => temurin_label(*data) is None,
        },
{
    let a = match data.as_array() {
        Some(a) => a,
        None => {
            return None;
        },
    };
    if a.len() == 0 {
        return None;
    }
    let v = match a[0].get("version") {
        Some(v) => v,
        None => {
            return None;
        },
    };
    let x = json_u32_exec(v.get("major"));
    let y = json_u32_exec(v.get("minor"));
    let z = json_u32_exec(v.get("security"));
    match (x, y, z) {
        (Some(x), Some(y), Some(z)) => {
            let mut l = decimal_string(x as u64);
            l.append(".");
            l.append(decimal_string(y as u64).as_str());
            l.append(".");
            l.append(decimal_string(z as u64).as_str());
            Some(l)
        },
        _ => None,
    }
}

pub struct JdkPlugin;

impl Plugin for JdkPlugin {
    open spec fn spec_id(&self) -> Seq<char> {
        "jdk"@
    }

    fn id(&self) -> (r: &'static str) {
        "jdk"
    }

    fn name(&self) -> (r: &'static str)
        ensures
            r@ == "JDK"@,
    {
        "JDK"
    }

    fn description(&self) -> (r: &'static str)
        ensures
            r@ == "Download Eclipse Temurin JDK (default 25 LTS; optional --version for feature line) and add it to PATH."@,
    {
        "Download Eclipse Temurin JDK (default 25 LTS; optional --version for feature line) and add it to PATH."
    }

    fn status(&self, ctx: &InstallContext, fs: &FsView) -> (r: PluginStatus)
        ensures
            r@ == binary_status_spec(
                fs@,
                java_bin(ctx.host.os, ctx.install_dir@),
                ctx.install_dir@,
                "Install dir exists but java binary is missing"@,
            ),
    {
        let bin = path_join2(ctx.host.os, ctx.install_dir.as_str(), "bin", exe_name(ctx.host.os, "java").as_str());
        binary_status(fs, bin.as_str(), ctx.install_dir.as_str(), "Install dir exists but java binary is missing")
    }

    /// The PATH entries.
    fn env_spec(&self, ctx: &InstallContext, fs: &FsView) -> (r: EnvSpec)
        ensures
            r@ == (
                seq![join(ctx.host.os, ctx.install_dir@, "bin"@)],
                Seq::<(Seq<char>, Seq<char>)>::empty(),
            ),
    {
        let r = env_of(vec![path_join(ctx.host.os, ctx.install_dir.as_str(), "bin")], Vec::new());
        assert(r@.0 =~= seq![join(ctx.host.os, ctx.install_dir@, "bin"@)]);
        assert(r@.1 =~= Seq::<(Seq<char>, Seq<char>)>::empty());
        r
    }
}

} // verus!
