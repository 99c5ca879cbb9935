use vstd::prelude::*;
use crate::strutil::{eq_ignore_case, str_eq, str_eq_ignore_ascii_case};

verus! {

/// The ordered list of known accounts plus which one is active.
#[derive(Debug)]
pub struct AccountList {
    pub accounts: Vec<MCAccount>,
    pub selected_index: Option<u32>,
}

/// One account: the four dependent token stages plus the profile.
#[derive(Debug)]
pub struct MCAccount {
    pub msa_response: MSAResponse2,
    pub xbl_response: XBLResponse,
    pub xsts_response: XBLResponse,
    pub mc_response: MCResponse2,
    pub mc_profile: MCProfile,
}

/// The stable identity of an account.
#[derive(Debug)]
pub struct MCProfile {
    pub id: String,
    pub name: String,
    pub skins: Vec<MCSkin>,
    pub capes: Vec<MCCape>,
}

/// One skin of a profile.
#[derive(Debug)]
pub struct MCSkin {
    pub id: String,
    pub state: String,
    pub url: String,
    pub variant: String,
    pub texture_key: String,
    pub alias: Option<String>,
}

/// One cape of a profile.
#[derive(Debug)]
pub struct MCCape {
    pub id: String,
}

/// The identity token endpoint's wire response; `expires_in` counts seconds
/// from receipt.
#[derive(Debug)]
pub struct MSAResponse {
    pub token_type: String,
    pub expires_in: i32,
    pub scope: String,
    pub access_token: String,
    pub refresh_token: String,
    pub user_id: String,
}

/// The identity stage as stored: the wire response with its expiry resolved
/// to an absolute timestamp (unix seconds).
#[derive(Debug)]
pub struct MSAResponse2 {
    pub token_type: String,
    pub expires_at: i64,
    pub scope: String,
    pub access_token: String,
    pub refresh_token: String,
    pub user_id: String,
}

/// A device token stage (broker or service-specific), with absolute issue
/// and expiry timestamps (unix seconds) and the nested user-hash claim.
#[derive(Debug)]
pub struct XBLResponse {
    pub issue_instant: i64,
    pub not_after: i64,
    pub token: String,
    pub display_claims: XBLDisplayClaims,
}

/// The claims carried by a device token.
#[derive(Debug)]
pub struct XBLDisplayClaims {
    pub xui: Vec<XBLXUIClaims>,
}

/// One user-hash claim.
#[derive(Debug)]
pub struct XBLXUIClaims {
    pub uhs: String,
}

/// The game service's wire response; `expires_in` counts seconds from
/// receipt.
#[derive(Debug)]
pub struct MCResponse {
    pub access_token: String,
    pub expires_in: i32,
    pub username: String,
    pub token_type: String,
}

/// The game token stage as stored, with an absolute expiry (unix seconds).
#[derive(Debug)]
pub struct MCResponse2 {
    pub access_token: String,
    pub expires_at: i64,
    pub username: String,
    pub token_type: String,
}

/// The entitlement endpoint's response.
#[derive(Debug)]
pub struct Entitlements {
    pub items: Vec<Entitlement>,
    pub signature: String,
}

/// One owned entitlement.
#[derive(Debug)]
pub struct Entitlement {
    pub name: String,
    pub source: String,
}

impl MSAResponse2 {
    /// Resolves a wire identity response against the receipt time `now`.
    pub fn from_wire(wire: MSAResponse, now: i64) -> (r: MSAResponse2)
        requires
            now + wire.expires_in <= i64::MAX,
            i64::MIN <= now + wire.expires_in,
        ensures
            r.token_type == wire.token_type,
            r.expires_at == now + wire.expires_in,
            r.scope == wire.scope,
            r.access_token == wire.access_token,
            r.refresh_token == wire.refresh_token,
            r.user_id == wire.user_id,
    {
        MSAResponse2 {
            token_type: wire.token_type,
            expires_at: now + wire.expires_in as i64,
            scope: wire.scope,
            access_token: wire.access_token,
            refresh_token: wire.refresh_token,
            user_id: wire.user_id,
        }
    }
}

impl MCResponse2 {
    /// Resolves a wire game-token response against the receipt time `now`.
    pub fn from_wire(wire: MCResponse, now: i64) -> (r: MCResponse2)
        requires
            now + wire.expires_in <= i64::MAX,
            i64::MIN <= now + wire.expires_in,
        ensures
            r.access_token == wire.access_token,
            r.expires_at == now + wire.expires_in,
            r.username == wire.username,
            r.token_type == wire.token_type,
    {
        MCResponse2 {
            access_token: wire.access_token,
            expires_at: now + wire.expires_in as i64,
            username: wire.username,
            token_type: wire.token_type,
        }
    }
}

/// The game-ownership check: some entitlement is named `product_minecraft`
/// or `game_minecraft`, compared ignoring ASCII case.
pub open spec fn spec_has_mc_ownership(e: Entitlements) -> bool {
    exists|i: int|
        0 <= i < e.items@.len() && (eq_ignore_case(#[trigger] e.items@[i].name@, "product_minecraft"@)
            || eq_ignore_case(e.items@[i].name@, "game_minecraft"@))
}

impl Entitlements {
    /// Whether the entitlement list shows game ownership, exactly as
    /// `spec_has_mc_ownership` states.
    pub fn has_mc_ownership(&self) -> (r: bool)
        ensures
            r == spec_has_mc_ownership(*self),
    {
        let n = self.items.len();
        let mut i: usize = 0;
        while i < n
            invariant
                n == self.items@.len(),
                0 <= i <= n,
                forall|k: int|
                    0 <= k < i ==> !(eq_ignore_case(
                        #[trigger] self.items@[k].name@,
                        "product_minecraft"@,
                    ) || eq_ignore_case(self.items@[k].name@, "game_minecraft"@)),
            decreases n - i,
        {
            let name = self.items[i].name.as_str();
            if str_eq_ignore_ascii_case(name, "product_minecraft") || str_eq_ignore_ascii_case(
                name,
                "game_minecraft",
            ) {
                return true;
            }
            i = i + 1;
        }
        false
    }
}

/// View equality of optional strings.
pub open spec fn opt_str_eqv(a: Option<String>, b: Option<String>) -> bool {
    match (a, b) {
        (Some(x), Some(y)) => x@ == y@,
        (None, None) => true,
        _ => false,
    }
}

/// Two skins carry the same data.
pub open spec fn skin_eqv(a: MCSkin, b: MCSkin) -> bool {
    &&& a.id@ == b.id@
    &&& a.state@ == b.state@
    &&& a.url@ == b.url@
    &&& a.variant@ == b.variant@
    &&& a.texture_key@ == b.texture_key@
    &&& opt_str_eqv(a.alias, b.alias)
}

/// Two profiles carry the same data.
pub open spec fn profile_eqv(a: MCProfile, b: MCProfile) -> bool {
    &&& a.id@ == b.id@
    &&& a.name@ == b.name@
    &&& a.skins@.len() == b.skins@.len()
    &&& (forall|i: int| 0 <= i < a.skins@.len() ==> skin_eqv(#[trigger] a.skins@[i], b.skins@[i]))
    &&& a.capes@.len() == b.capes@.len()
    &&& (forall|i: int| 0 <= i < a.capes@.len() ==> (#[trigger] a.capes@[i]).id@ == b.capes@[i].id@)
}

/// Two identity stages carry the same data.
pub open spec fn msa2_eqv(a: MSAResponse2, b: MSAResponse2) -> bool {
    &&& a.token_type@ == b.token_type@
    &&& a.expires_at == b.expires_at
    &&& a.scope@ == b.scope@
    &&& a.access_token@ == b.access_token@
    &&& a.refresh_token@ == b.refresh_token@
    &&& a.user_id@ == b.user_id@
}

/// Two device-token stages carry the same data.
pub open spec fn xbl_eqv(a: XBLResponse, b: XBLResponse) -> bool {
    &&& a.issue_instant == b.issue_instant
    &&& a.not_after == b.not_after
    &&& a.token@ == b.token@
    &&& a.display_claims.xui@.len() == b.display_claims.xui@.len()
    &&& (forall|i: int|
        0 <= i < a.display_claims.xui@.len() ==> (#[trigger] a.display_claims.xui@[i]).uhs@
            == b.display_claims.xui@[i].uhs@)
}

/// Two game-token stages carry the same data.
pub open spec fn mc2_eqv(a: MCResponse2, b: MCResponse2) -> bool {
    &&& a.access_token@ == b.access_token@
    &&& a.expires_at == b.expires_at
    &&& a.username@ == b.username@
    &&& a.token_type@ == b.token_type@
}

/// Two accounts carry the same data, stage by stage.
pub open spec fn account_eqv(a: MCAccount, b: MCAccount) -> bool {
    &&& msa2_eqv(a.msa_response, b.msa_response)
    &&& xbl_eqv(a.xbl_response, b.xbl_response)
    &&& xbl_eqv(a.xsts_response, b.xsts_response)
    &&& mc2_eqv(a.mc_response, b.mc_response)
    &&& profile_eqv(a.mc_profile, b.mc_profile)
}

/// Whether two optional strings hold the same characters.
fn opt_str_same(a: &Option<String>, b: &Option<String>) -> (r: bool)
    ensures
        r == opt_str_eqv(*a, *b),
{
    match (a, b) {
        (Some(x), Some(y)) => str_eq(x.as_str(), y.as_str()),
        (None, None) => true,
        _ => false,
    }
}

impl MCProfile {
    /// Whether two profiles carry the same data.
    pub fn same_as(&self, other: &MCProfile) -> (r: bool)
        ensures
            r == profile_eqv(*self, *other),
    {
        if !str_eq(self.id.as_str(), other.id.as_str()) {
            return false;
        }
        if !str_eq(self.name.as_str(), other.name.as_str()) {
            return false;
        }
        let n = self.skins.len();
        if n != other.skins.len() {
            return false;
        }
        let mut i: usize = 0;
        while i < n
            invariant
                n == self.skins@.len(),
                n == other.skins@.len(),
                0 <= i <= n,
                forall|k: int| 0 <= k < i ==> skin_eqv(#[trigger] self.skins@[k], other.skins@[k]),
            decreases n - i,
        {
            let a = &self.skins[i];
            let b = &other.skins[i];
            let same = str_eq(a.id.as_str(), b.id.as_str()) && str_eq(
                a.state.as_str(),
                b.state.as_str(),
            ) && str_eq(a.url.as_str(), b.url.as_str()) && str_eq(
                a.variant.as_str(),
                b.variant.as_str(),
            ) && str_eq(a.texture_key.as_str(), b.texture_key.as_str()) && opt_str_same(
                &a.alias,
                &b.alias,
            );
            if !same {
                return false;
            }
            i = i + 1;
        }
        let m = self.capes.len();
        if m != other.capes.len() {
            return false;
        }
        let mut j: usize = 0;
        while j < m
            invariant
                m == self.capes@.len(),
                m == other.capes@.len(),
                0 <= j <= m,
                n == self.skins@.len(),
                n == other.skins@.len(),
                forall|k: int| 0 <= k < n ==> skin_eqv(#[trigger] self.skins@[k], other.skins@[k]),
                forall|k: int|
                    0 <= k < j ==> (#[trigger] self.capes@[k]).id@ == other.capes@[k].id@,
            decreases m - j,
        {
            if !str_eq(self.capes[j].id.as_str(), other.capes[j].id.as_str()) {
                return false;
            }
            j = j + 1;
        }
        true
    }
}

impl XBLResponse {
    /// Whether two device-token stages carry the same data.
    pub fn same_as(&self, other: &XBLResponse) -> (r: bool)
        ensures
            r == xbl_eqv(*self, *other),
    {
        if self.issue_instant != other.issue_instant || self.not_after != other.not_after {
            return false;
        }
        if !str_eq(self.token.as_str(), other.token.as_str()) {
            return false;
        }
        let n = self.display_claims.xui.len();
        if n != other.display_claims.xui.len() {
            return false;
        }
        let mut i: usize = 0;
        while i < n
            invariant
                n == self.display_claims.xui@.len(),
                n == other.display_claims.xui@.len(),
                0 <= i <= n,
                forall|k: int|
                    0 <= k < i ==> (#[trigger] self.display_claims.xui@[k]).uhs@
                        == other.display_claims.xui@[k].uhs@,
            decreases n - i,
        {
            if !str_eq(
                self.display_claims.xui[i].uhs.as_str(),
                other.display_claims.xui[i].uhs.as_str(),
            ) {
                return false;
            }
            i = i + 1;
        }
        true
    }
}

impl MCAccount {
    /// Whether two accounts carry the same data, stage by stage; this is
    /// the structural match the persisted store is updated by.
    pub fn same_as(&self, other: &MCAccount) -> (r: bool)
        ensures
            r == account_eqv(*self, *other),
    {
        let msa = str_eq(self.msa_response.token_type.as_str(), other.msa_response.token_type.as_str())
            && self.msa_response.expires_at == other.msa_response.expires_at && str_eq(
            self.msa_response.scope.as_str(),
            other.msa_response.scope.as_str(),
        ) && str_eq(
            self.msa_response.access_token.as_str(),
            other.msa_response.access_token.as_str(),
        ) && str_eq(
            self.msa_response.refresh_token.as_str(),
            other.msa_response.refresh_token.as_str(),
        ) && str_eq(self.msa_response.user_id.as_str(), other.msa_response.user_id.as_str());
        if !msa {
            return false;
        }
        if !self.xbl_response.same_as(&other.xbl_response) {
            return false;
        }
        if !self.xsts_response.same_as(&other.xsts_response) {
            return false;
        }
        let mc = str_eq(
            self.mc_response.access_token.as_str(),
            other.mc_response.access_token.as_str(),
        ) && self.mc_response.expires_at == other.mc_response.expires_at && str_eq(
            self.mc_response.username.as_str(),
            other.mc_response.username.as_str(),
        ) && str_eq(self.mc_response.token_type.as_str(), other.mc_response.token_type.as_str());
        if !mc {
            return false;
        }
        self.mc_profile.same_as(&other.mc_profile)
    }
}

} // verus!
