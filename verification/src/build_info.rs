//! Build identity helpers.

use vstd::prelude::*;
use vstd::string::*;
use crate::text::{law_trimming_twice_is_trimming_once, opt_view, same_text, trim, trimmed};

verus! {

/// What a build recorded about itself, as it was recorded.
pub struct BuildInputs {
    pub base_version: String,
    pub channel: Option<String>,
    pub build_id: Option<String>,
    pub build_sha: Option<String>,
}

/// A recorded value counts only when something is left of it after trimming.
pub open spec fn recorded(value: Option<Seq<char>>) -> Option<Seq<char>> {
    match value {
        Some(v) => if trimmed(v).len() == 0 {
            None
        } else {
            Some(trimmed(v))
        },
        None => None,
    }
}

impl BuildInputs {
    /// Every build has a base version.
    pub open spec fn wf(&self) -> bool {
        self.base_version@.len() > 0
    }

    pub open spec fn spec_channel(&self) -> Seq<char> {
        match recorded(opt_view(self.channel)) {
            Some(c) => c,
            None => "stable"@,
        }
    }

    /// The base version alone on the stable channel; otherwise the channel is attached, and the
    /// build id after it where there is one.
    pub open spec fn spec_version(&self) -> Seq<char> {
        if self.spec_channel() == "stable"@ {
            self.base_version@
        } else {
            match recorded(opt_view(self.build_id)) {
                Some(id) => self.base_version@ + "-"@ + self.spec_channel() + "."@ + id,
                None => self.base_version@ + "-"@ + self.spec_channel(),
            }
        }
    }

    pub open spec fn spec_version_line(&self) -> Seq<char> {
        match recorded(opt_view(self.build_sha)) {
            Some(sha) => "zynk "@ + self.spec_version() + " ("@ + sha + ")"@,
            None => "zynk "@ + self.spec_version(),
        }
    }
}

/// A recorded value, trimmed, where something is left of it.
pub fn non_empty<'a>(value: &'a Option<String>) -> (r: Option<&'a str>)
    ensures
        match r {
            Some(t) => recorded(opt_view(*value)) == Some(t@),
            None => recorded(opt_view(*value)) is None,
        },
{
    match value {
        Some(value) => {
            let kept = trim(value.as_str());
            if kept.is_empty() {
                None
            } else {
                Some(kept)
            }
        },
        None => None,
    }
}

/// The release channel, `stable` when none was recorded.
pub fn channel<'a>(build: &'a BuildInputs) -> (r: &'a str)
    ensures
        r@ == build.spec_channel(),
{
    match non_empty(&build.channel) {
        Some(channel) => channel,
        None => "stable",
    }
}

pub fn build_id<'a>(build: &'a BuildInputs) -> (r: Option<&'a str>)
    ensures
        match r {
            Some(t) => recorded(opt_view(build.build_id)) == Some(t@),
            None => recorded(opt_view(build.build_id)) is None,
        },
{
    non_empty(&build.build_id)
}

pub fn version(build: &BuildInputs) -> (r: String)
    ensures
        r@ == build.spec_version(),
        build.wf() ==> r@.len() > 0,
{
    let channel = channel(build);
    if same_text(channel, "stable") {
        return build.base_version.clone();
    }
    let mut version = build.base_version.clone();
    version.append("-");
    version.append(channel);
    match build_id(build) {
        Some(build_id) => {
            version.append(".");
            version.append(build_id);
        },
        None => {},
    }
    version
}

/// The source commit this binary was built from, when the build could attest one.
pub fn build_sha<'a>(build: &'a BuildInputs) -> (r: Option<&'a str>)
    ensures
        match r {
            Some(t) => recorded(opt_view(build.build_sha)) == Some(t@),
            None => recorded(opt_view(build.build_sha)) is None,
        },
{
    non_empty(&build.build_sha)
}

/// The `--version` line: `zynk <version>`, plus the attested source commit when there is one.
pub fn version_line(build: &BuildInputs) -> (r: String)
    ensures
        r@ == build.spec_version_line(),
{
    let mut line = "zynk ".to_owned();
    line.append(version(build).as_str());
    match build_sha(build) {
        Some(sha) => {
            line.append(" (");
            line.append(sha);
            line.append(")");
        },
        None => {},
    }
    line
}

pub fn is_preview(build: &BuildInputs) -> (r: bool)
    ensures
        r == (build.spec_channel() == "preview"@),
{
    same_text(channel(build), "preview")
}

/// A build that recorded no channel, or only white space for one, is a stable build: its version
/// is the base version, whatever build id it recorded.
pub proof fn law_unrecorded_channel_is_stable(build: BuildInputs)
    requires
        recorded(opt_view(build.channel)) is None,
    ensures
        build.spec_channel() == "stable"@,
        build.spec_version() == build.base_version@,
{
}

/// A version is never empty. It is the base version on the stable channel, whatever build id was
/// recorded; on any other the channel follows, and the build id where there is one.
pub proof fn law_version_is_never_empty(build: BuildInputs)
    requires
        build.wf(),
    ensures
        build.spec_version().len() > 0,
        build.spec_channel() == "stable"@ ==> build.spec_version() == build.base_version@,
        build.spec_channel() != "stable"@ ==> build.spec_version() == build.base_version@ + "-"@
            + build.spec_channel() + match recorded(opt_view(build.build_id)) {
            Some(id) => "."@ + id,
            None => Seq::empty(),
        },
{
    if build.spec_channel() != "stable"@ {
        let head = build.base_version@ + "-"@ + build.spec_channel();
        match recorded(opt_view(build.build_id)) {
            Some(id) => {
                assert(head + "."@ + id =~= head + ("."@ + id));
            },
            None => {
                assert(head + Seq::<char>::empty() =~= head);
            },
        }
    }
}

/// Keeping a recorded value twice is keeping it once; nothing is kept of no value and of a blank
/// one, and of any other what trimming leaves.
pub proof fn law_a_kept_value_is_kept_as_it_is(value: Option<Seq<char>>)
    ensures
        recorded(recorded(value)) == recorded(value),
        recorded(value) is None <==> (value matches Some(v) ==> trimmed(v).len() == 0),
        recorded(value) matches Some(kept) ==> value matches Some(v) && kept == trimmed(v),
{
    if value is Some {
        law_trimming_twice_is_trimming_once(value->Some_0);
    }
}

/// The version line always starts with the program name and the version.
pub proof fn law_version_line_starts_with_the_version(build: BuildInputs)
    ensures
        ("zynk "@ + build.spec_version()).is_prefix_of(build.spec_version_line()),
{
    let head = "zynk "@ + build.spec_version();
    assert(build.spec_version_line().subrange(0, head.len() as int) =~= head);
}

} // verus!
