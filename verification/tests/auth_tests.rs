use yamcl::auth::{
    get_entitlements_url, get_login_url, get_mc_profile_url, get_mc_url, get_msa_url,
    get_xbl_url, get_xsts_url, get_accounts, get_active_account, remove_account,
    save_new_account, set_selected_index, update_account, RefreshPlan,
};
use yamcl::auth_structs::{
    AccountList, Entitlement, Entitlements, MCAccount, MCProfile, MCResponse, MCResponse2,
    MSAResponse, MSAResponse2, XBLDisplayClaims, XBLResponse, XBLXUIClaims,
};

fn account(msa_exp: i64, xbl_exp: i64, xsts_exp: i64, mc_exp: i64) -> MCAccount {
    MCAccount {
        msa_response: MSAResponse2 {
            token_type: "bearer".to_string(),
            expires_at: msa_exp,
            scope: "scope".to_string(),
            access_token: "msa-token".to_string(),
            refresh_token: "refresh-token".to_string(),
            user_id: "user".to_string(),
        },
        xbl_response: XBLResponse {
            issue_instant: 0,
            not_after: xbl_exp,
            token: "xbl-token".to_string(),
            display_claims: XBLDisplayClaims {
                xui: vec![XBLXUIClaims { uhs: "hash-1".to_string() }],
            },
        },
        xsts_response: XBLResponse {
            issue_instant: 0,
            not_after: xsts_exp,
            token: "xsts-token".to_string(),
            display_claims: XBLDisplayClaims {
                xui: vec![XBLXUIClaims { uhs: "hash-1".to_string() }],
            },
        },
        mc_response: MCResponse2 {
            access_token: "mc-token".to_string(),
            expires_at: mc_exp,
            username: "user".to_string(),
            token_type: "bearer".to_string(),
        },
        mc_profile: MCProfile {
            id: "uuid-1".to_string(),
            name: "Alice".to_string(),
            skins: Vec::new(),
            capes: Vec::new(),
        },
    }
}

#[test]
fn refresh_only_service_expired_rederives_service_and_game() {
    // Broker and Identity valid, Service expired (Game token itself unexpired).
    let acc = account(2000, 2000, 500, 2000);
    let plan = RefreshPlan::compute(&acc, 1000, false);
    assert!(plan.rederive_game);
    assert!(plan.rederive_service);
    assert!(!plan.rederive_broker);
    assert!(!plan.refresh_identity);
}

#[test]
fn refresh_forced_rederives_everything() {
    // Every stage fresh, force set: the whole chain is re-derived.
    let acc = account(2000, 2000, 2000, 2000);
    let plan = RefreshPlan::compute(&acc, 1000, true);
    assert!(plan.refresh_identity);
    assert!(plan.rederive_broker);
    assert!(plan.rederive_service);
    assert!(plan.rederive_game);
}

#[test]
fn refresh_fresh_chain_does_nothing() {
    let acc = account(2000, 2000, 2000, 2000);
    let plan = RefreshPlan::compute(&acc, 1000, false);
    assert!(!plan.refresh_identity);
    assert!(!plan.rederive_broker);
    assert!(!plan.rederive_service);
    assert!(!plan.rederive_game);
}

#[test]
fn refresh_expired_identity_rederives_whole_chain() {
    let acc = account(500, 2000, 2000, 2000);
    let plan = RefreshPlan::compute(&acc, 1000, false);
    assert!(plan.refresh_identity);
    assert!(plan.rederive_broker);
    assert!(plan.rederive_service);
    assert!(plan.rederive_game);
}

#[test]
fn wire_responses_resolve_expiry() {
    let msa = MSAResponse {
        token_type: "bearer".to_string(),
        expires_in: 3600,
        scope: "scope".to_string(),
        access_token: "a".to_string(),
        refresh_token: "r".to_string(),
        user_id: "u".to_string(),
    };
    let resolved = MSAResponse2::from_wire(msa, 1_000_000);
    assert_eq!(resolved.expires_at, 1_003_600);
    let mc = MCResponse {
        access_token: "t".to_string(),
        expires_in: 86400,
        username: "u".to_string(),
        token_type: "bearer".to_string(),
    };
    let resolved = MCResponse2::from_wire(mc, 2_000_000);
    assert_eq!(resolved.expires_at, 2_086_400);
}

#[test]
fn update_account_replaces_by_value_not_index() {
    let old_a = account(1, 2, 3, 4);
    let target = account(10, 20, 30, 40);
    let refreshed = account(100, 200, 300, 400);
    let mut list = AccountList {
        accounts: vec![old_a, target, account(10, 20, 30, 40)],
        selected_index: Some(2),
    };
    let previous = account(10, 20, 30, 40);
    update_account(&mut list, &previous, refreshed);
    // the first structural match was replaced, the later duplicate kept
    assert_eq!(list.accounts[0].msa_response.expires_at, 1);
    assert_eq!(list.accounts[1].msa_response.expires_at, 100);
    assert_eq!(list.accounts[2].msa_response.expires_at, 10);
    assert_eq!(list.selected_index, Some(2));
}

#[test]
fn update_account_without_match_keeps_list() {
    let mut list = AccountList { accounts: vec![account(1, 2, 3, 4)], selected_index: Some(0) };
    let previous = account(9, 9, 9, 9);
    update_account(&mut list, &previous, account(7, 7, 7, 7));
    assert_eq!(list.accounts.len(), 1);
    assert_eq!(list.accounts[0].msa_response.expires_at, 1);
}

#[test]
fn active_account_by_selection() {
    let list = AccountList {
        accounts: vec![account(1, 1, 1, 1), account(2, 2, 2, 2)],
        selected_index: Some(1),
    };
    let active = get_active_account(list).unwrap();
    assert_eq!(active.msa_response.expires_at, 2);
    let none = get_active_account(AccountList { accounts: Vec::new(), selected_index: Some(3) });
    assert!(none.is_none());
    let unset = get_active_account(AccountList {
        accounts: vec![account(1, 1, 1, 1)],
        selected_index: None,
    });
    assert!(unset.is_none());
}

#[test]
fn account_list_operations() {
    let mut list = AccountList { accounts: Vec::new(), selected_index: None };
    save_new_account(&mut list, account(1, 1, 1, 1));
    save_new_account(&mut list, account(2, 2, 2, 2));
    assert_eq!(list.accounts.len(), 2);
    assert_eq!(list.selected_index, Some(1));
    set_selected_index(&mut list, 0);
    assert_eq!(list.selected_index, Some(0));
    remove_account(&mut list, 0);
    assert_eq!(list.accounts.len(), 1);
    assert_eq!(list.accounts[0].msa_response.expires_at, 2);
    let profiles = get_accounts(list.accounts);
    assert_eq!(profiles.len(), 1);
    assert_eq!(profiles[0].name, "Alice");
}

#[test]
fn entitlements_ownership_check() {
    let owned = Entitlements {
        items: vec![
            Entitlement { name: "other_game".to_string(), source: "s".to_string() },
            Entitlement { name: "Product_Minecraft".to_string(), source: "s".to_string() },
        ],
        signature: "sig".to_string(),
    };
    assert!(owned.has_mc_ownership());
    let game = Entitlements {
        items: vec![Entitlement { name: "GAME_MINECRAFT".to_string(), source: "s".to_string() }],
        signature: "sig".to_string(),
    };
    assert!(game.has_mc_ownership());
    let unowned = Entitlements {
        items: vec![Entitlement { name: "product_else".to_string(), source: "s".to_string() }],
        signature: "sig".to_string(),
    };
    assert!(!unowned.has_mc_ownership());
    let empty = Entitlements { items: Vec::new(), signature: "sig".to_string() };
    assert!(!empty.has_mc_ownership());
}

#[test]
fn endpoint_urls() {
    assert_eq!(get_msa_url(), "https://login.live.com/oauth20_token.srf");
    assert_eq!(get_xbl_url(), "https://user.auth.xboxlive.com/user/authenticate");
    assert_eq!(get_xsts_url(), "https://xsts.auth.xboxlive.com/xsts/authorize");
    assert_eq!(get_mc_url(), "https://api.minecraftservices.com/launcher/login");
    assert_eq!(get_entitlements_url(), "https://api.minecraftservices.com/entitlements/license");
    assert_eq!(get_mc_profile_url(), "https://api.minecraftservices.com/minecraft/profile");
    let login = get_login_url();
    assert!(login.starts_with("https://login.live.com/oauth20_authorize.srf?client_id="));
    assert!(login.ends_with("&redirect_uri=http%3A%2F%2F127.0.0.1%3A32301"));
}
