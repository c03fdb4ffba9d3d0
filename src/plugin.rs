//! The version record that a plugin hands to its host.
use crate::version::pack_version;
use vstd::prelude::*;

verus! {

/// Layout version of [`SKSEPluginVersionData`].
pub const DATA_VERSION: u32 = 1;

/// Length of each text field of the record.
pub const TEXT_FIELD_LEN: usize = 256;

/// `arr` followed by zero bytes up to length `M`.
pub fn zero_pad_u8<const N: usize, const M: usize>(arr: &[u8; N]) -> (r: [u8; M])
    requires
        N <= M,
    ensures
        r@ == arr@ + Seq::new((M - N) as nat, |i: int| 0u8),
{
    let mut m = [0u8; M];
    let mut i: usize = 0;
    while i < N
        invariant
            N <= M,
            i <= N,
            m@.len() == M,
            forall|j: int| 0 <= j < i ==> m@[j] == arr@[j],
            forall|j: int| i <= j < M ==> m@[j] == 0,
        decreases N - i,
    {
        m.set(i, arr[i]);
        i = i + 1;
    }
    assert(m@ =~= arr@ + Seq::new((M - N) as nat, |i: int| 0u8));
    m
}

/// What a plugin reports about itself: its version, zero-padded texts, and the
/// packed host versions that it runs on.
#[allow(non_snake_case)]
pub struct SKSEPluginVersionData {
    pub dataVersion: u32,
    pub pluginVersion: u32,
    pub name: [u8; 256],
    pub author: [u8; 256],
    pub supportEmail: [u8; 256],
    pub versionIndependence: u32,
    pub compatibleVersions: [u32; 16],
    pub seVersionRequired: u32,
}

impl SKSEPluginVersionData {
    /// The record of a plugin that runs on exactly the host version `host`,
    /// with texts padded to their fields.
    pub fn new<const A: usize, const B: usize, const C: usize>(
        plugin_version: u32,
        name: &[u8; A],
        author: &[u8; B],
        support_email: &[u8; C],
        host: [u32; 4],
    ) -> (r: SKSEPluginVersionData)
        requires
            A <= TEXT_FIELD_LEN,
            B <= TEXT_FIELD_LEN,
            C <= TEXT_FIELD_LEN,
        ensures
            r.dataVersion == DATA_VERSION,
            r.pluginVersion == plugin_version,
            r.name@ == name@ + Seq::new((256 - A) as nat, |i: int| 0u8),
            r.author@ == author@ + Seq::new((256 - B) as nat, |i: int| 0u8),
            r.supportEmail@ == support_email@ + Seq::new((256 - C) as nat, |i: int| 0u8),
            r.versionIndependence == 0,
            r.compatibleVersions@[0] as int == crate::version::packed_version(host@),
            forall|i: int| 1 <= i < 16 ==> r.compatibleVersions@[i] == 0,
            r.seVersionRequired == 0,
    {
        let mut compatible = [0u32; 16];
        compatible.set(0, pack_version(host));
        SKSEPluginVersionData {
            dataVersion: DATA_VERSION,
            pluginVersion: plugin_version,
            name: zero_pad_u8(name),
            author: zero_pad_u8(author),
            supportEmail: zero_pad_u8(support_email),
            versionIndependence: 0,
            compatibleVersions: compatible,
            seVersionRequired: 0,
        }
    }
}

} // verus!
