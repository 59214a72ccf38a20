//! The release manifest: a JSON document with an `assets` array of entries
//! carrying a file name and a recorded digest of the form
//! `<algorithm>:<hex>`. Only `sha256` digests are honored; everything that
//! fails to parse resolves to "no trusted digest" rather than an error.

use crate::bytes::{starts_with, starts_with_spec, tail_from};
use vstd::prelude::*;
use vstd::string::StrSliceExecFns;
use vstd::string::StringSliceAdditionalSpecFns;

verus! {

/// One entry of the manifest's `assets` array, with whatever of the two
/// interesting fields the document actually carried.
pub struct RawAsset {
    pub name: Option<Vec<u8>>,
    pub digest: Option<Vec<u8>>,
}

pub open spec fn asset_view(a: RawAsset) -> (Option<Seq<u8>>, Option<Seq<u8>>) {
    (
        match a.name {
            Option::Some(n) => Option::Some(n@),
            Option::None => Option::None,
        },
        match a.digest {
            Option::Some(d) => Option::Some(d@),
            Option::None => Option::None,
        },
    )
}

/// What parsing the manifest document yields: `None` when the text is not a
/// JSON object with an `assets` array, otherwise that array's entries. A
/// function of the document text alone.
pub uninterp spec fn parsed_assets(body: Seq<char>) -> Option<
    Seq<(Option<Seq<u8>>, Option<Seq<u8>>)>,
>;

/// Relies on serde_json (`from_str`, `Value::get`, `Value::as_array`,
/// `Value::as_str`): parses the manifest document and hands each entry of
/// its `assets` array out as plain optional byte strings.
#[verifier::external_body]
fn parse_manifest_assets(body: &str) -> (r: Option<Vec<RawAsset>>)
    ensures
        match r {
            Option::Some(v) => parsed_assets(body@) == Option::Some(
                v@.map_values(|a: RawAsset| asset_view(a)),
            ),
            Option::None => parsed_assets(body@) is None,
        },
{
    let v: serde_json::Value = serde_json::from_str(body).ok()?;
    let assets = v.get("assets")?.as_array()?;
    Some(
        assets
            .iter()
            .map(|a| RawAsset {
                name: a.get("name").and_then(|x| x.as_str()).map(|s| s.as_bytes().to_vec()),
                digest: a.get("digest").and_then(|x| x.as_str()).map(|s| s.as_bytes().to_vec()),
            })
            .collect(),
    )
}

/// The digest's hex part, accepted only under the recognized algorithm
/// prefix `sha256:`; anything else is unverifiable.
pub open spec fn spec_parse_digest(d: Seq<u8>) -> Option<Seq<u8>> {
    if starts_with_spec(d, "sha256:".spec_bytes()) {
        Option::Some(d.skip("sha256:".spec_bytes().len() as int))
    } else {
        Option::None
    }
}

pub fn parse_digest_field(d: &Vec<u8>) -> (r: Option<Vec<u8>>)
    ensures
        match r {
            Option::Some(h) => spec_parse_digest(d@) == Option::Some(h@),
            Option::None => spec_parse_digest(d@) is None,
        },
{
    let prefix = ("sha256:").as_bytes_vec();
    if starts_with(d, &prefix) {
        Option::Some(tail_from(d, prefix.len()))
    } else {
        Option::None
    }
}

/// The trusted digest the manifest records for `file_name`: the first entry
/// whose name matches decides — a usable `sha256:` digest yields its hex
/// part, anything else means verification is skipped.
pub open spec fn spec_digest_for(
    assets: Seq<(Option<Seq<u8>>, Option<Seq<u8>>)>,
    file_name: Seq<u8>,
) -> Option<Seq<u8>>
    decreases assets.len(),
{
    if assets.len() == 0 {
        Option::None
    } else if assets[0].0 == Option::Some(file_name) {
        match assets[0].1 {
            Option::Some(d) => spec_parse_digest(d),
            Option::None => Option::None,
        }
    } else {
        spec_digest_for(assets.drop_first(), file_name)
    }
}

pub fn digest_for_asset(assets: &Vec<RawAsset>, file_name: &Vec<u8>) -> (r: Option<Vec<u8>>)
    ensures
        match r {
            Option::Some(h) => spec_digest_for(
                assets@.map_values(|a: RawAsset| asset_view(a)),
                file_name@,
            ) == Option::Some(h@),
            Option::None => spec_digest_for(
                assets@.map_values(|a: RawAsset| asset_view(a)),
                file_name@,
            ) is None,
        },
{
    let ghost va = assets@.map_values(|a: RawAsset| asset_view(a));
    proof {
        assert(va.skip(0) =~= va);
    }
    let n = assets.len();
    for i in 0..n
        invariant
            n == assets.len(),
            va == assets@.map_values(|a: RawAsset| asset_view(a)),
            spec_digest_for(va.skip(i as int), file_name@) == spec_digest_for(va, file_name@),
        decreases n - i,
    {
        proof {
            assert(va.skip(i as int).drop_first() =~= va.skip(i + 1));
            assert(va.skip(i as int)[0] == va[i as int]);
        }
        let matches_name: bool = match &assets[i].name {
            Option::Some(nm) => crate::bytes::bytes_eq(nm, file_name),
            Option::None => false,
        };
        if matches_name {
            match &assets[i].digest {
                Option::Some(d) => {
                    return parse_digest_field(d);
                },
                Option::None => {
                    return Option::None;
                },
            }
        }
    }
    proof {
        assert(va.skip(n as int) =~= Seq::<(Option<Seq<u8>>, Option<Seq<u8>>)>::empty());
    }
    Option::None
}

/// The platform-qualified bundle file name the manifest is searched for.
pub open spec fn spec_asset_file_name(windows: bool) -> Seq<u8> {
    if windows {
        "n8n-core-windows.zip".spec_bytes()
    } else {
        "n8n-core-macos.zip".spec_bytes()
    }
}

pub fn asset_file_name(windows: bool) -> (r: Vec<u8>)
    ensures
        r@ == spec_asset_file_name(windows),
{
    if windows {
        ("n8n-core-windows.zip").as_bytes_vec()
    } else {
        ("n8n-core-macos.zip").as_bytes_vec()
    }
}

/// What the whole digest lookup resolves to, from the fetch outcome and the
/// document text: any failure along the way — unreachable endpoint,
/// non-success status, unparsable body, missing entry, unusable digest —
/// yields `None`, never an error.
pub open spec fn spec_remote_digest(
    fetch_ok: bool,
    body: Option<Seq<char>>,
    file_name: Seq<u8>,
) -> Option<Seq<u8>> {
    if !fetch_ok {
        Option::None
    } else {
        match body {
            Option::None => Option::None,
            Option::Some(text) => match parsed_assets(text) {
                Option::None => Option::None,
                Option::Some(assets) => spec_digest_for(assets, file_name),
            },
        }
    }
}

/// An unreachable manifest endpoint, a non-success status, an unreadable
/// response, or an unparsable body always resolves to "no trusted digest" —
/// which the refresh decision reports as a skip, never as an error.
pub proof fn lemma_unavailable_manifest_skips(
    fetch_ok: bool,
    body: Option<Seq<char>>,
    file_name: Seq<u8>,
)
    requires
        !fetch_ok || body is None || parsed_assets(body->0) is None,
    ensures
        spec_remote_digest(fetch_ok, body, file_name) is None,
{
}

/// Resolves the trusted digest for `file_name` from a manifest fetch:
/// `fetch_ok` says whether the endpoint answered with a success status, and
/// `body` holds the response text when it could be read.
pub fn remote_digest(fetch_ok: bool, body: &Option<String>, file_name: &Vec<u8>) -> (r: Option<
    Vec<u8>,
>)
    ensures
        ({
            let bv = match *body {
                Option::Some(ref t) => Option::Some(t@),
                Option::None => Option::None,
            };
            match r {
                Option::Some(h) => spec_remote_digest(fetch_ok, bv, file_name@) == Option::Some(
                    h@,
                ),
                Option::None => spec_remote_digest(fetch_ok, bv, file_name@) is None,
            }
        }),
{
    if !fetch_ok {
        return Option::None;
    }
    match body {
        Option::None => Option::None,
        Option::Some(text) => {
            match parse_manifest_assets(text.as_str()) {
                Option::None => Option::None,
                Option::Some(assets) => digest_for_asset(&assets, file_name),
            }
        },
    }
}

} // verus!
