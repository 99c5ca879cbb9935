use vstd::prelude::*;
use vstd::pervasive::VecAdditionalExecFns;
use crate::auth_structs::{account_eqv, AccountList, MCAccount, MCProfile};
use crate::strutil::{spec_dec, u32_to_string};

verus! {

/// The OAuth client id this launcher identifies itself with.
pub const MS_CLIENT_ID: &'static str = "5431ff2d-20f8-415b-aa2f-5218eba055ea";

/// The local port the login flow redirects back to.
pub const REDIRECT_PORT: u16 = 32301;

/// The four dependent token stages, innermost first: each is derived from
/// the one before it.
#[derive(Clone, Copy, Debug, PartialEq, Eq, Structural)]
pub enum Stage {
    Identity,
    Broker,
    Service,
    GameToken,
}

/// A stage's own expiry has passed at `now`.
pub open spec fn spec_stage_expired(acc: MCAccount, now: i64, stage: Stage) -> bool {
    match stage {
        Stage::Identity => acc.msa_response.expires_at < now,
        Stage::Broker => acc.xbl_response.not_after < now,
        Stage::Service => acc.xsts_response.not_after < now,
        Stage::GameToken => acc.mc_response.expires_at < now,
    }
}

/// A stage is invalid at `now` when its own expiry has passed or any stage
/// below it is invalid: a token is only usable while everything it was
/// derived from is still fresh.
pub open spec fn spec_stage_invalid(acc: MCAccount, now: i64, stage: Stage) -> bool {
    match stage {
        Stage::Identity => spec_stage_expired(acc, now, Stage::Identity),
        Stage::Broker => spec_stage_expired(acc, now, Stage::Broker) || spec_stage_expired(
            acc,
            now,
            Stage::Identity,
        ),
        Stage::Service => spec_stage_expired(acc, now, Stage::Service) || spec_stage_expired(
            acc,
            now,
            Stage::Broker,
        ) || spec_stage_expired(acc, now, Stage::Identity),
        Stage::GameToken => spec_stage_expired(acc, now, Stage::GameToken) || spec_stage_expired(
            acc,
            now,
            Stage::Service,
        ) || spec_stage_expired(acc, now, Stage::Broker) || spec_stage_expired(
            acc,
            now,
            Stage::Identity,
        ),
    }
}

/// What a cascading refresh will re-derive, decided outermost first: the
/// game token is re-derived when it is invalid or the refresh is forced;
/// each inner stage is re-derived only when the stage above it is, and it is
/// itself invalid or the refresh is forced.
#[derive(Clone, Copy, Debug, PartialEq, Eq, Structural)]
pub struct RefreshPlan {
    pub refresh_identity: bool,
    pub rederive_broker: bool,
    pub rederive_service: bool,
    pub rederive_game: bool,
}

/// The refresh plan for an account at `now`.
pub open spec fn spec_refresh_plan(acc: MCAccount, now: i64, force: bool) -> RefreshPlan {
    let game = force || spec_stage_invalid(acc, now, Stage::GameToken);
    let service = game && (force || spec_stage_invalid(acc, now, Stage::Service));
    let broker = service && (force || spec_stage_invalid(acc, now, Stage::Broker));
    let identity = broker && (force || spec_stage_invalid(acc, now, Stage::Identity));
    RefreshPlan { refresh_identity: identity, rederive_broker: broker, rederive_service: service, rederive_game: game }
}

impl RefreshPlan {
    /// Decides the cascading refresh for `account` at `now`, exactly as
    /// `spec_refresh_plan` states.
    pub fn compute(account: &MCAccount, now: i64, force: bool) -> (r: RefreshPlan)
        ensures
            r == spec_refresh_plan(*account, now, force),
    {
        let identity_invalid = account.msa_response.expires_at < now;
        let broker_invalid = account.xbl_response.not_after < now || identity_invalid;
        let service_invalid = account.xsts_response.not_after < now || broker_invalid;
        let game_invalid = account.mc_response.expires_at < now || service_invalid;
        let game = force || game_invalid;
        let service = game && (force || service_invalid);
        let broker = service && (force || broker_invalid);
        let identity = broker && (force || identity_invalid);
        RefreshPlan {
            refresh_identity: identity,
            rederive_broker: broker,
            rederive_service: service,
            rederive_game: game,
        }
    }
}

/// Re-derivation is strictly inside-out: refreshing the identity happens
/// only on plans that re-derive the broker, and so on up the chain, so a
/// re-derived stage always re-derives every stage above it.
pub proof fn lemma_plan_inside_out(acc: MCAccount, now: i64, force: bool)
    ensures
        spec_refresh_plan(acc, now, force).refresh_identity ==> spec_refresh_plan(
            acc,
            now,
            force,
        ).rederive_broker,
        spec_refresh_plan(acc, now, force).rederive_broker ==> spec_refresh_plan(
            acc,
            now,
            force,
        ).rederive_service,
        spec_refresh_plan(acc, now, force).rederive_service ==> spec_refresh_plan(
            acc,
            now,
            force,
        ).rederive_game,
{
}

/// When only the service stage is expired (broker and identity still
/// fresh), an unforced refresh re-derives the service token and the game
/// token, does not re-derive the broker, and does not call the identity
/// refresh grant.
pub proof fn lemma_refresh_only_service_expired(acc: MCAccount, now: i64)
    requires
        spec_stage_expired(acc, now, Stage::Service),
        !spec_stage_expired(acc, now, Stage::Broker),
        !spec_stage_expired(acc, now, Stage::Identity),
    ensures
        spec_refresh_plan(acc, now, false).rederive_game,
        spec_refresh_plan(acc, now, false).rederive_service,
        !spec_refresh_plan(acc, now, false).rederive_broker,
        !spec_refresh_plan(acc, now, false).refresh_identity,
{
}

/// A forced refresh re-derives every stage, starting from the identity
/// refresh grant, whatever the expiries say.
pub proof fn lemma_refresh_forced(acc: MCAccount, now: i64)
    ensures
        spec_refresh_plan(acc, now, true).refresh_identity,
        spec_refresh_plan(acc, now, true).rederive_broker,
        spec_refresh_plan(acc, now, true).rederive_service,
        spec_refresh_plan(acc, now, true).rederive_game,
{
}

/// A refresh of a fully fresh chain, unforced, does nothing.
pub proof fn lemma_refresh_fresh_chain_idle(acc: MCAccount, now: i64)
    requires
        !spec_stage_expired(acc, now, Stage::Identity),
        !spec_stage_expired(acc, now, Stage::Broker),
        !spec_stage_expired(acc, now, Stage::Service),
        !spec_stage_expired(acc, now, Stage::GameToken),
    ensures
        spec_refresh_plan(acc, now, false) == (RefreshPlan {
            refresh_identity: false,
            rederive_broker: false,
            rederive_service: false,
            rederive_game: false,
        }),
{
}

/// Index of the first account of `accounts` that structurally matches
/// `prev`, or -1 when none does.
pub open spec fn first_match_idx(accounts: Seq<MCAccount>, prev: MCAccount) -> int
    decreases accounts.len(),
{
    if accounts.len() == 0 {
        -1
    } else if account_eqv(accounts[0], prev) {
        0
    } else {
        if first_match_idx(accounts.skip(1), prev) < 0 {
            -1
        } else {
            first_match_idx(accounts.skip(1), prev) + 1
        }
    }
}

/// What `first_match_idx` returns: -1 exactly when nothing matches, else
/// the least matching position.
pub proof fn lemma_first_match_idx(accounts: Seq<MCAccount>, prev: MCAccount)
    ensures
        first_match_idx(accounts, prev) == -1 <==> (forall|k: int|
            0 <= k < accounts.len() ==> !account_eqv(#[trigger] accounts[k], prev)),
        first_match_idx(accounts, prev) != -1 ==> 0 <= first_match_idx(accounts, prev)
            < accounts.len() && account_eqv(accounts[first_match_idx(accounts, prev)], prev) && (
        forall|k: int|
            0 <= k < first_match_idx(accounts, prev) ==> !account_eqv(
                #[trigger] accounts[k],
                prev,
            )),
    decreases accounts.len(),
{
    if accounts.len() == 0 {
    } else if account_eqv(accounts[0], prev) {
    } else {
        lemma_first_match_idx(accounts.skip(1), prev);
        let r = first_match_idx(accounts.skip(1), prev);
        assert(forall|k: int| 1 <= k < accounts.len() ==> accounts[k] == accounts.skip(1)[k - 1]);
        if r != -1 {
            assert(accounts[r + 1] == accounts.skip(1)[r]);
        }
    }
}

/// Rewrites the stored account list by structural match-and-replace: the
/// first account equal to `previous` (by value, not by index) is replaced
/// with `new_data`; everything else, the order, and the selection stay. A
/// list holding no match stays whole.
pub fn update_account(list: &mut AccountList, previous: &MCAccount, new_data: MCAccount)
    ensures
        final(list).selected_index == old(list).selected_index,
        final(list).accounts@.len() == old(list).accounts@.len(),
        ({
            let idx = first_match_idx(old(list).accounts@, *previous);
            if idx >= 0 {
                final(list).accounts@ == old(list).accounts@.update(idx, new_data)
            } else {
                final(list).accounts@ == old(list).accounts@
            }
        }),
{
    let ghost accounts0 = list.accounts@;
    let n = list.accounts.len();
    let mut i: usize = 0;
    proof {
        lemma_first_match_idx(accounts0, *previous);
    }
    while i < n
        invariant
            accounts0 == list.accounts@,
            accounts0 == old(list).accounts@,
            old(list).selected_index == list.selected_index,
            n == list.accounts@.len(),
            0 <= i <= n,
            forall|k: int| 0 <= k < i ==> !account_eqv(#[trigger] list.accounts@[k], *previous),
        decreases n - i,
    {
        if list.accounts[i].same_as(previous) {
            proof {
                lemma_first_match_idx(accounts0, *previous);
                assert(first_match_idx(accounts0, *previous) == i as int);
            }
            list.accounts.set(i, new_data);
            return ;
        }
        i = i + 1;
    }
    proof {
        lemma_first_match_idx(accounts0, *previous);
    }
}

/// The profiles of the stored accounts, in order.
pub fn get_accounts(accounts: Vec<MCAccount>) -> (r: Vec<MCProfile>)
    ensures
        r@.len() == accounts@.len(),
        forall|i: int| 0 <= i < r@.len() ==> r@[i] == accounts@[i].mc_profile,
{
    let ghost accounts0 = accounts@;
    let mut rest = accounts;
    let mut out: Vec<MCProfile> = Vec::new();
    while rest.len() > 0
        invariant
            out@.len() + rest@.len() == accounts0.len(),
            rest@ == accounts0.skip(out@.len() as int),
            forall|k: int| 0 <= k < out@.len() ==> out@[k] == accounts0[k].mc_profile,
        decreases rest@.len(),
    {
        let ghost k = out@.len() as int;
        let ghost pre = rest@;
        let acc = rest.remove(0);
        proof {
            assert(acc == accounts0.skip(k)[0]);
            assert(accounts0.skip(k)[0] == accounts0[k]);
            assert(rest@ =~= accounts0.skip(k).skip(1));
            assert(accounts0.skip(k).skip(1) =~= accounts0.skip(k + 1));
        }
        out.push(acc.mc_profile);
    }
    proof {
        assert(out@.len() == accounts0.len());
    }
    out
}

/// The selected account taken out of the list: the one at the selected
/// index, or nothing when no selection is stored or it points past the end.
pub fn get_active_account(list: AccountList) -> (r: Option<MCAccount>)
    ensures
        match list.selected_index {
            Some(i) => if i < list.accounts@.len() {
                r == Some(list.accounts@[i as int])
            } else {
                r is None
            },
            None => r is None,
        },
{
    let mut accounts = list.accounts;
    match list.selected_index {
        Some(i) => {
            let idx = i as usize;
            if idx < accounts.len() {
                Some(accounts.remove(idx))
            } else {
                None
            }
        },
        None => None,
    }
}

/// Appends a freshly added account and selects it.
pub fn save_new_account(list: &mut AccountList, account: MCAccount)
    requires
        old(list).accounts@.len() < u32::MAX,
    ensures
        final(list).accounts@ == old(list).accounts@.push(account),
        final(list).selected_index == Some((old(list).accounts@.len()) as u32),
{
    list.accounts.push(account);
    let idx = (list.accounts.len() - 1) as u32;
    list.selected_index = Some(idx);
}

/// Removes the account at `index`, keeping the selection value as stored.
pub fn remove_account(list: &mut AccountList, index: usize)
    requires
        index < old(list).accounts@.len(),
    ensures
        final(list).accounts@ == old(list).accounts@.remove(index as int),
        final(list).selected_index == old(list).selected_index,
{
    let _removed = list.accounts.remove(index);
}

/// Stores the selection.
pub fn set_selected_index(list: &mut AccountList, index: u32)
    ensures
        final(list).accounts@ == old(list).accounts@,
        final(list).selected_index == Some(index),
{
    list.selected_index = Some(index);
}

/// The login page the browser window is pointed at.
pub fn get_login_url() -> (r: String)
    ensures
        r@ == "https://login.live.com/oauth20_authorize.srf?client_id="@ + MS_CLIENT_ID@
            + "&prompt=select_account"@ + "&cobrandid=8058f65d-ce06-4c30-9559-473c9275a65d"@
            + "&response_type=code"@ + "&scope=XboxLive.signin%20XboxLive.offline_access"@
            + "&redirect_uri=http%3A%2F%2F127.0.0.1%3A"@ + spec_dec(REDIRECT_PORT as nat),
{
    let mut out = String::from_str("https://login.live.com/oauth20_authorize.srf?client_id=");
    out.append(MS_CLIENT_ID);
    out.append("&prompt=select_account");
    out.append("&cobrandid=8058f65d-ce06-4c30-9559-473c9275a65d");
    out.append("&response_type=code");
    out.append("&scope=XboxLive.signin%20XboxLive.offline_access");
    out.append("&redirect_uri=http%3A%2F%2F127.0.0.1%3A");
    let port = u32_to_string(REDIRECT_PORT as u32);
    out.append(port.as_str());
    out
}

/// The identity token endpoint.
pub fn get_msa_url() -> (r: String)
    ensures
        r@ == "https://login.live.com/oauth20_token.srf"@,
{
    String::from_str("https://login.live.com/oauth20_token.srf")
}

/// The broker (device authentication) endpoint.
pub fn get_xbl_url() -> (r: String)
    ensures
        r@ == "https://user.auth.xboxlive.com/user/authenticate"@,
{
    String::from_str("https://user.auth.xboxlive.com/user/authenticate")
}

/// The service (relying-party authorization) endpoint.
pub fn get_xsts_url() -> (r: String)
    ensures
        r@ == "https://xsts.auth.xboxlive.com/xsts/authorize"@,
{
    String::from_str("https://xsts.auth.xboxlive.com/xsts/authorize")
}

/// The game login endpoint.
pub fn get_mc_url() -> (r: String)
    ensures
        r@ == "https://api.minecraftservices.com/launcher/login"@,
{
    String::from_str("https://api.minecraftservices.com/launcher/login")
}

/// The entitlement check endpoint.
pub fn get_entitlements_url() -> (r: String)
    ensures
        r@ == "https://api.minecraftservices.com/entitlements/license"@,
{
    String::from_str("https://api.minecraftservices.com/entitlements/license")
}

/// The profile endpoint.
pub fn get_mc_profile_url() -> (r: String)
    ensures
        r@ == "https://api.minecraftservices.com/minecraft/profile"@,
{
    String::from_str("https://api.minecraftservices.com/minecraft/profile")
}

} // verus!
