//! One generation attempt: deriving the staged bundle's layout and every
//! byte that goes into it, then the session that carries the computed
//! destination and the one-shot saved flag through the install step.

use vstd::prelude::*;

use crate::config::{config_json_spec, Config};
use crate::install::{begin_model, SagaStep, SaveSaga};
use crate::manifest::{render_info_plist, render_spec, DocTypes};
use crate::paths::{
    file_name_spec, get_names, path_ext_spec, path_extension_of, set_file_name_spec,
};
use crate::text::{dec_str, str_eq, u64_to_dec};

verus! {

/// Relies on gethostname::gethostname: the machine's host name, converted
/// lossily to text. It depends on the machine, so nothing is promised.
#[verifier::external_body]
fn hostname_lossy() -> String {
    gethostname::gethostname().to_string_lossy().into_owned()
}

/// Relies on rand's thread-local generator: `gen_range` over an inclusive
/// range returns a value inside it. The draw is random, so only the bound
/// is promised.
#[verifier::external_body]
fn random_bundle_suffix() -> (r: u64)
    ensures
        r <= 999999,
{
    rand::Rng::gen_range(&mut rand::thread_rng(), 0..=999999u64)
}

/// A synthesized bundle identifier: `local.<host>.<name><number>`.
pub open spec fn bundle_id_spec(host: Seq<char>, app_name: Seq<char>, num: nat) -> Seq<char> {
    "local."@ + host + "."@ + app_name + dec_str(num)
}

/// Builds the identifier text for given parts, as `bundle_id_spec` says.
pub fn compose_bundle_id(host: &str, app_name: &str, num: u64) -> (r: String)
    ensures
        r@ == bundle_id_spec(host@, app_name@, num as nat),
{
    let mut s = String::from_str("local.");
    s.append(host);
    s.append(".");
    s.append(app_name);
    let d = u64_to_dec(num);
    s.append(d.as_str());
    s
}

/// Synthesizes a default identifier from the host name and a random number
/// up to 999999. Uniqueness is best effort, not guaranteed.
pub fn generate_bundle_id(app_name: &str) -> (r: String)
    ensures
        exists|host: Seq<char>, num: nat|
            num <= 999999 && r@ == #[trigger] bundle_id_spec(host, app_name@, num),
{
    let host = hostname_lossy();
    let num = random_bundle_suffix();
    let r = compose_bundle_id(host.as_str(), app_name, num);
    proof {
        assert(bundle_id_spec(host@, app_name@, num as nat) == r@);
    }
    r
}

/// The scratch layout of one staged bundle: the bundle root and its three
/// inner directories, all under a caller-supplied private scratch root.
#[derive(Debug)]
pub struct BundleTmpDir {
    pub app_root: String,
    pub contents: String,
    pub mac_os: String,
    pub resources: String,
}

impl BundleTmpDir {
    pub open spec fn wf_under(&self, tmp_root: Seq<char>, bundle_name: Seq<char>) -> bool {
        &&& self.app_root@ == tmp_root + "/"@ + bundle_name
        &&& self.contents@ == self.app_root@ + "/Contents"@
        &&& self.mac_os@ == self.contents@ + "/MacOS"@
        &&& self.resources@ == self.contents@ + "/Resources"@
    }

    /// Lays the four paths out under the scratch root. Creating the
    /// directories, in this same outside-in order, is the caller's part.
    pub fn new(tmp_root: &str, bundle_name: &str) -> (r: BundleTmpDir)
        ensures
            r.wf_under(tmp_root@, bundle_name@),
    {
        let mut app_root = tmp_root.to_owned();
        app_root.append("/");
        app_root.append(bundle_name);
        let mut contents = app_root.clone();
        contents.append("/Contents");
        let mut mac_os = contents.clone();
        mac_os.append("/MacOS");
        let mut resources = contents.clone();
        resources.append("/Resources");
        BundleTmpDir { app_root, contents, mac_os, resources }
    }

    pub fn app_root(&self) -> (r: &str)
        ensures
            r@ == self.app_root@,
    {
        self.app_root.as_str()
    }

    pub fn contents(&self) -> (r: &str)
        ensures
            r@ == self.contents@,
    {
        self.contents.as_str()
    }

    pub fn mac_os(&self) -> (r: &str)
        ensures
            r@ == self.mac_os@,
    {
        self.mac_os.as_str()
    }

    pub fn resources(&self) -> (r: &str)
        ensures
            r@ == self.resources@,
    {
        self.resources.as_str()
    }

    /// The four directories in the order they must be created.
    pub fn dirs_in_order(&self) -> (r: Vec<String>)
        ensures
            r@.len() == 4,
            r@[0]@ == self.app_root@,
            r@[1]@ == self.contents@,
            r@[2]@ == self.mac_os@,
            r@[3]@ == self.resources@,
    {
        let mut v: Vec<String> = Vec::new();
        v.push(self.app_root.clone());
        v.push(self.contents.clone());
        v.push(self.mac_os.clone());
        v.push(self.resources.clone());
        v
    }
}

/// The error reported when one scratch directory cannot be created: the
/// failing path relative to the scratch root, so the message stays legible
/// without the temp-path noise; the full path only when it does not lie
/// under the root.
pub open spec fn create_dir_err_spec(path: Seq<char>, tmp_root: Seq<char>, cause: Seq<char>) -> Seq<
    char,
> {
    if path.len() > tmp_root.len() && path.subrange(0, tmp_root.len() as int) == tmp_root && path[
        tmp_root.len() as int
    ] == '/' {
        "cannot create directory "@ + path.subrange(tmp_root.len() as int + 1, path.len() as int)
            + ": "@ + cause
    } else {
        "cannot create directory "@ + path + ": "@ + cause
    }
}

pub fn create_dir_error(path: &str, tmp_root: &str, cause: &str) -> (r: String)
    ensures
        r@ == create_dir_err_spec(path@, tmp_root@, cause@),
{
    let n = path.unicode_len();
    let rn = tmp_root.unicode_len();
    let mut m = String::from_str("cannot create directory ");
    if n > rn && crate::text::starts_with(path, tmp_root) && path.get_char(rn) == '/' {
        m.append(path.substring_char(rn + 1, n));
    } else {
        m.append(path);
    }
    m.append(": ");
    m.append(cause);
    proof {
        assert(m@ =~= create_dir_err_spec(path@, tmp_root@, cause@));
    }
    m
}

/// What to put at `Contents/Resources/AppIcon.icns`: the bundled default
/// icon, a byte-for-byte copy of the given image, or the given image
/// decoded and re-encoded.
#[derive(Debug)]
pub enum IconAction {
    WriteDefault,
    CopyFile(String),
    ConvertToPng(String),
}

/// The icon decision: no custom icon means the default; an `icns` or `png`
/// file is copied as it is; anything else goes through conversion.
pub fn icon_action_for(icon_path: Option<&str>) -> (r: IconAction)
    ensures
        match icon_path {
            None => r is WriteDefault,
            Some(p) => {
                if path_ext_spec(p@) == Some("png"@) || path_ext_spec(p@) == Some("icns"@) {
                    r matches IconAction::CopyFile(q) && q@ == p@
                } else {
                    r matches IconAction::ConvertToPng(q) && q@ == p@
                }
            },
        },
{
    match icon_path {
        Option::None => IconAction::WriteDefault,
        Option::Some(p) => {
            let is_plain = match path_extension_of(p) {
                Option::Some(e) => str_eq(e.as_str(), "png") || str_eq(e.as_str(), "icns"),
                Option::None => false,
            };
            if is_plain {
                IconAction::CopyFile(p.to_owned())
            } else {
                IconAction::ConvertToPng(p.to_owned())
            }
        },
    }
}

/// Everything the staging step must materialize, fully computed: the
/// directories, each file's path, and each file's exact bytes or source.
#[derive(Debug)]
pub struct StagePlan {
    pub dirs: BundleTmpDir,
    pub info_plist_path: String,
    pub info_plist_text: String,
    pub shim_src: String,
    pub shim_dst: String,
    pub config_path: String,
    pub config_text: String,
    pub icon_path: String,
    pub icon_action: IconAction,
}

/// A generation session: the staged bundle's root, the computed final
/// destination, and the one-shot saved flag. Saving again after a success
/// is a caller error and is ruled out by contract; after a failure the save
/// may be retried.
#[derive(Debug)]
pub struct Generator {
    pub staged_root: String,
    pub final_bundle_path: String,
    pub saved: bool,
}

impl Generator {
    /// Plans one generation: derives the names and destination from the
    /// requested path, lays out the scratch bundle under `tmp_root`, renders
    /// the manifest (with a synthesized identifier when none is given),
    /// serializes the configuration, and decides the icon. The session must
    /// still be saved.
    pub fn gen(
        config: &Config,
        doc_type: &DocTypes,
        shim_bin: &str,
        bundle_id: Option<&str>,
        icon_path: Option<&str>,
        app_path: &str,
        tmp_root: &str,
    ) -> (r: Result<(Generator, StagePlan), String>)
        ensures
            match r {
                Ok(gp) => {
                    let app_name = crate::paths::app_name_spec(app_path@);
                    let bundle_name = app_name + ".app"@;
                    &&& file_name_spec(app_path@) is Some
                    &&& gp.1.dirs.wf_under(tmp_root@, bundle_name)
                    &&& gp.1.info_plist_path@ == gp.1.dirs.contents@ + "/Info.plist"@
                    &&& (match bundle_id {
                        Some(id) => gp.1.info_plist_text@ == render_spec(app_name, *doc_type, id@),
                        None => exists|host: Seq<char>, num: nat|
                            num <= 999999 && gp.1.info_plist_text@ == render_spec(
                                app_name,
                                *doc_type,
                                #[trigger] bundle_id_spec(host, app_name, num),
                            ),
                    })
                    &&& gp.1.shim_src@ == shim_bin@
                    &&& gp.1.shim_dst@ == gp.1.dirs.mac_os@ + "/"@ + app_name
                    &&& gp.1.config_path@ == gp.1.dirs.resources@ + "/config.json"@
                    &&& gp.1.config_text@ == config_json_spec(*config)
                    &&& gp.1.icon_path@ == gp.1.dirs.resources@ + "/AppIcon.icns"@
                    &&& (match icon_path {
                        None => gp.1.icon_action is WriteDefault,
                        Some(p) => {
                            if path_ext_spec(p@) == Some("png"@) || path_ext_spec(p@) == Some(
                                "icns"@,
                            ) {
                                gp.1.icon_action matches IconAction::CopyFile(q) && q@ == p@
                            } else {
                                gp.1.icon_action matches IconAction::ConvertToPng(q) && q@ == p@
                            }
                        },
                    })
                    &&& gp.0.staged_root@ == gp.1.dirs.app_root@
                    &&& gp.0.final_bundle_path@ == set_file_name_spec(app_path@, bundle_name)
                    &&& !gp.0.saved
                },
                Err(m) => {
                    &&& file_name_spec(app_path@) is None
                    &&& m@ == "Couldn't get file name from "@ + app_path@
                },
            },
    {
        let (app_name, bundle_name, final_bundle_path) = match get_names(app_path) {
            Result::Ok(names) => names,
            Result::Err(m) => {
                return Err(m);
            },
        };
        let dirs = BundleTmpDir::new(tmp_root, bundle_name.as_str());
        let id_text: String = match bundle_id {
            Option::Some(id) => id.to_owned(),
            Option::None => generate_bundle_id(app_name.as_str()),
        };
        let info_plist_text = render_info_plist(app_name.as_str(), doc_type, id_text.as_str());
        let mut info_plist_path = dirs.contents.clone();
        info_plist_path.append("/Info.plist");
        let mut shim_dst = dirs.mac_os.clone();
        shim_dst.append("/");
        shim_dst.append(app_name.as_str());
        let mut config_path = dirs.resources.clone();
        config_path.append("/config.json");
        let config_text = config.to_json();
        let mut icon_dst = dirs.resources.clone();
        icon_dst.append("/AppIcon.icns");
        let icon_action = icon_action_for(icon_path);
        let generator = Generator {
            staged_root: dirs.app_root.clone(),
            final_bundle_path,
            saved: false,
        };
        let plan = StagePlan {
            dirs,
            info_plist_path,
            info_plist_text,
            shim_src: shim_bin.to_owned(),
            shim_dst,
            config_path,
            config_text,
            icon_path: icon_dst,
            icon_action,
        };
        Ok((generator, plan))
    }

    /// Starts the install saga for this session: the caller performs each
    /// rename the saga asks for and feeds the outcome back to it. Forbidden
    /// once a save has succeeded.
    pub fn save(&self, overwrite: bool, dst_exists: bool) -> (r: (SaveSaga, SagaStep))
        requires
            !self.saved,
        ensures
            r.0.wf(),
            (r.0.model(), r.1.model()) == begin_model(
                self.staged_root@,
                self.final_bundle_path@,
                overwrite,
                dst_exists,
            ),
    {
        SaveSaga::begin(self.staged_root.clone(), self.final_bundle_path.clone(), overwrite,
            dst_exists)
    }

    /// Records how the saga ended: a success marks the session saved, and
    /// no further save can start; a failure leaves it open for a retry.
    pub fn complete_save(&mut self, result: &Result<(), crate::install::SaveErr>)
        requires
            !old(self).saved,
        ensures
            final(self).staged_root == old(self).staged_root,
            final(self).final_bundle_path == old(self).final_bundle_path,
            final(self).saved == (result is Ok),
    {
        if result.is_ok() {
            self.saved = true;
        }
    }

    pub fn final_bundle_path(&self) -> (r: &str)
        ensures
            r@ == self.final_bundle_path@,
    {
        self.final_bundle_path.as_str()
    }
}

} // verus!
