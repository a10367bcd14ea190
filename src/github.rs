//! The texts of the pull request opened for a release: its description, the
//! branch it comes from and the commit message.

use crate::dist::{maintainer_text, MetaJson};
use crate::trunk::trunk_toml::description_of;
use vstd::prelude::*;

verus! {

pub open spec fn description_text(meta: MetaJson) -> Seq<char> {
    "Note: this PR was auto-generated by [pgxn-bridge](https://github.com/tembo-io/pgxn-bridge), see ["@
        + meta.name@ + " in PGXN](https://pgxn.org/dist/"@ + meta.name@ + "/)\n\n"@
        + "Version "@ + meta.version@ + ", published "@ + meta.date@ + "\n\n"@
        + "Description: "@ + description_of(meta)@ + "\n\n"@
        + "Maintainer: "@ + maintainer_text(meta.maintainer) + "\n"@
}

/// The body of the pull request for `metadata`.
pub fn build_description(metadata: &MetaJson) -> (r: String)
    ensures
        r@ == description_text(*metadata),
{
    let mut buf = String::from_str(
        "Note: this PR was auto-generated by [pgxn-bridge](https://github.com/tembo-io/pgxn-bridge), see [",
    );
    buf.append(metadata.name.as_str());
    buf.append(" in PGXN](https://pgxn.org/dist/");
    buf.append(metadata.name.as_str());
    buf.append("/)\n\n");
    buf.append("Version ");
    buf.append(metadata.version.as_str());
    buf.append(", published ");
    buf.append(metadata.date.as_str());
    buf.append("\n\n");
    buf.append("Description: ");
    match &metadata.description {
        Some(d) => buf.append(d.as_str()),
        None => buf.append(metadata._abstract.as_str()),
    }
    buf.append("\n\n");
    buf.append("Maintainer: ");
    let maintainer = metadata.maintainer.to_text();
    buf.append(maintainer.as_str());
    buf.append("\n");
    buf
}

pub open spec fn branch_text(name: Seq<char>, version: Seq<char>) -> Seq<char> {
    "pgxn-bridge/"@ + name + "-"@ + version
}

pub open spec fn commit_text(name: Seq<char>, version: Seq<char>) -> Seq<char> {
    "pgxn-bridge: publish "@ + name + " v"@ + version
}

/// The branch that carries the manifest of `metadata`'s version.
pub fn branch_name(metadata: &MetaJson) -> (r: String)
    ensures
        r@ == branch_text(metadata.name@, metadata.version@),
{
    let mut s = String::from_str("pgxn-bridge/");
    s.append(metadata.name.as_str());
    s.append("-");
    s.append(metadata.version.as_str());
    s
}

/// The commit message, also used as the pull request's title.
pub fn commit_message(metadata: &MetaJson) -> (r: String)
    ensures
        r@ == commit_text(metadata.name@, metadata.version@),
{
    let mut s = String::from_str("pgxn-bridge: publish ");
    s.append(metadata.name.as_str());
    s.append(" v");
    s.append(metadata.version.as_str());
    s
}

} // verus!
