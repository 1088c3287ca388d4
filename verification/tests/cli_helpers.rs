use lumos_core::anchor::AnchorAccountType;
use lumos_core::cli_helpers::{
    format_type, infer_anchor_account_type, to_snake_case, type_info_to_rust_type,
};
use lumos_core::ir::TypeInfo;

#[test]
fn types_are_written_as_in_schemas() {
    let t = TypeInfo::Option(Box::new(TypeInfo::FixedArray {
        element: Box::new(TypeInfo::Array(Box::new(TypeInfo::Primitive("PublicKey".to_string())))),
        size: 3,
    }));
    assert_eq!(format_type(&t), "Option<[Vec<PublicKey>; 3]>");
    assert_eq!(type_info_to_rust_type(&t), "Option<[Vec<Pubkey>; 3]>");
    assert_eq!(format_type(&TypeInfo::Generic("T".to_string())), "T");
}

#[test]
fn cli_snake_case_keeps_capital_runs_together() {
    assert_eq!(to_snake_case("PlayerAccount"), "player_account");
    assert_eq!(to_snake_case("NFTItem"), "nftitem");
    assert_eq!(to_snake_case("already_snake"), "already_snake");
    assert_eq!(to_snake_case(""), "");
}

#[test]
fn cli_account_types() {
    assert_eq!(
        infer_anchor_account_type(&TypeInfo::UserDefined("SystemProgram".to_string())),
        AnchorAccountType::Program("System".to_string())
    );
    assert_eq!(
        infer_anchor_account_type(&TypeInfo::UserDefined("Sysvar<Clock>".to_string())),
        AnchorAccountType::Sysvar("Clock".to_string())
    );
    assert_eq!(
        infer_anchor_account_type(&TypeInfo::UserDefined("UncheckedAccount".to_string())),
        AnchorAccountType::UncheckedAccount
    );
    assert_eq!(
        infer_anchor_account_type(&TypeInfo::Array(Box::new(TypeInfo::Primitive("u8".to_string())))),
        AnchorAccountType::AccountInfo
    );
}
