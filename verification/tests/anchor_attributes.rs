use lumos_core::anchor::attributes::{
    generate_account_attr, generate_account_type, infer_account_type, type_info_to_rust,
};
use lumos_core::anchor::{
    generate_accounts_context, parse_anchor_attrs, parse_instruction_context, AnchorAccountAttr,
    AnchorAccountType, InstructionAccount, InstructionArg, InstructionContext, SeedComponent,
};
use lumos_core::ir::{FieldDefinition, Metadata, StructDefinition, TypeInfo, Visibility};

#[test]
fn test_parse_simple_attrs() {
    let attrs = parse_anchor_attrs("init, mut, payer = authority");
    assert_eq!(attrs.len(), 3);
    assert!(attrs.contains(&AnchorAccountAttr::Init));
    assert!(attrs.contains(&AnchorAccountAttr::Mut));
    assert!(attrs.contains(&AnchorAccountAttr::Payer("authority".to_string())));
}

#[test]
fn test_parse_constraint() {
    let attrs = parse_anchor_attrs("constraint = \"amount > 0\"");
    assert_eq!(attrs.len(), 1);
    assert!(matches!(
        &attrs[0],
        AnchorAccountAttr::Constraint(c) if c == "amount > 0"
    ));
}

#[test]
fn test_parse_has_one() {
    let attrs = parse_anchor_attrs("mut, has_one = owner");
    assert_eq!(attrs.len(), 2);
    assert!(attrs.contains(&AnchorAccountAttr::Mut));
    assert!(attrs.contains(&AnchorAccountAttr::HasOne("owner".to_string())));
}

#[test]
fn test_parse_seeds() {
    let attrs = parse_anchor_attrs("seeds = [b\"vault\", authority.key().as_ref()], bump");
    assert_eq!(attrs.len(), 2);
    assert!(attrs.contains(&AnchorAccountAttr::Bump));

    if let Some(AnchorAccountAttr::Seeds(seeds)) = attrs.first() {
        assert_eq!(seeds.len(), 2);
        assert!(matches!(&seeds[0], SeedComponent::Literal(s) if s == "vault"));
        assert!(matches!(&seeds[1], SeedComponent::AccountKey(s) if s == "authority"));
    } else {
        panic!("Expected Seeds attribute");
    }
}

#[test]
fn test_generate_account_attr() {
    let attrs = vec![
        AnchorAccountAttr::Init,
        AnchorAccountAttr::Payer("authority".to_string()),
        AnchorAccountAttr::Space("8 + 32".to_string()),
    ];
    let result = generate_account_attr(&attrs);
    assert!(result.contains("init"));
    assert!(result.contains("payer = authority"));
    assert!(result.contains("space = 8 + 32"));
}

#[test]
fn test_generate_accounts_context() {
    let ctx = InstructionContext {
        name: "Initialize".to_string(),
        accounts: vec![
            InstructionAccount {
                name: "my_account".to_string(),
                account_type: AnchorAccountType::Account("MyAccount".to_string()),
                attrs: vec![
                    AnchorAccountAttr::Init,
                    AnchorAccountAttr::Payer("authority".to_string()),
                    AnchorAccountAttr::Space("8 + MyAccount::LEN".to_string()),
                ],
                optional: false,
                docs: vec![],
            },
            InstructionAccount {
                name: "authority".to_string(),
                account_type: AnchorAccountType::Signer,
                attrs: vec![AnchorAccountAttr::Mut],
                optional: false,
                docs: vec![],
            },
            InstructionAccount {
                name: "system_program".to_string(),
                account_type: AnchorAccountType::Program("System".to_string()),
                attrs: vec![],
                optional: false,
                docs: vec![],
            },
        ],
        args: vec![],
    };

    let result = generate_accounts_context(&ctx);
    assert!(result.contains("#[derive(Accounts)]"));
    assert!(result.contains("pub struct Initialize<'info>"));
    assert!(result.contains("pub my_account: Account<'info, MyAccount>"));
    assert!(result.contains("pub authority: Signer<'info>"));
    assert!(result.contains("pub system_program: Program<'info, System>"));
    assert!(result.contains("#[account(init, payer = authority"));
}

#[test]
fn test_generate_account_type() {
    assert_eq!(
        generate_account_type(&AnchorAccountType::Account("MyAccount".to_string())),
        "Account<'info, MyAccount>"
    );
    assert_eq!(
        generate_account_type(&AnchorAccountType::Signer),
        "Signer<'info>"
    );
    assert_eq!(
        generate_account_type(&AnchorAccountType::Program("System".to_string())),
        "Program<'info, System>"
    );
}

#[test]
fn test_parse_full_anchor_attr() {
    let attrs = parse_anchor_attrs("#[anchor(init, payer = user, space = 8 + 100)]");
    assert_eq!(attrs.len(), 3);
    assert!(attrs.contains(&AnchorAccountAttr::Init));
    assert!(attrs.contains(&AnchorAccountAttr::Payer("user".to_string())));
    assert!(attrs.contains(&AnchorAccountAttr::Space("8 + 100".to_string())));
}

#[test]
fn parse_unknown_entries_are_skipped() {
    let attrs = parse_anchor_attrs("mut, frobnicate, close = receiver, realloc::zero = true");
    assert_eq!(
        attrs,
        vec![
            AnchorAccountAttr::Mut,
            AnchorAccountAttr::Close("receiver".to_string()),
            AnchorAccountAttr::ReallocZero(true),
        ]
    );
}

#[test]
fn parse_seeds_with_argument_and_bump_expression() {
    let attrs = parse_anchor_attrs("seeds = [b\"pos\", args.id, owner.key().as_ref()], bump = pos.bump");
    assert_eq!(
        attrs,
        vec![
            AnchorAccountAttr::Seeds(vec![
                SeedComponent::Literal("pos".to_string()),
                SeedComponent::Arg("id".to_string()),
                SeedComponent::AccountKey("owner".to_string()),
            ]),
            AnchorAccountAttr::BumpExpr("pos.bump".to_string()),
        ]
    );
}

#[test]
fn written_attribute_lists_entries_in_order() {
    let attrs = vec![
        AnchorAccountAttr::Mut,
        AnchorAccountAttr::HasOne("owner".to_string()),
        AnchorAccountAttr::Seeds(vec![
            SeedComponent::Literal("vault".to_string()),
            SeedComponent::AccountKey("owner".to_string()),
        ]),
        AnchorAccountAttr::Bump,
    ];
    assert_eq!(
        generate_account_attr(&attrs),
        "mut, has_one = owner, seeds = [b\"vault\", owner.key().as_ref()], bump"
    );
}

#[test]
fn context_with_argument_seed_gets_instruction_attribute() {
    let ctx = InstructionContext {
        name: "Deposit".to_string(),
        accounts: vec![InstructionAccount {
            name: "position".to_string(),
            account_type: AnchorAccountType::Account("Position".to_string()),
            attrs: vec![AnchorAccountAttr::Seeds(vec![SeedComponent::Arg("id".to_string())])],
            optional: true,
            docs: vec!["The position".to_string()],
        }],
        args: vec![InstructionArg {
            name: "id".to_string(),
            ty: TypeInfo::Primitive("u64".to_string()),
        }],
    };
    let out = generate_accounts_context(&ctx);
    assert!(out.contains("#[instruction(id: u64)]"));
    assert!(out.contains("    /// The position\n"));
    assert!(out.contains("pub position: Option<Account<'info, Position>>,"));
}

#[test]
fn argument_types_are_written_in_rust() {
    assert_eq!(type_info_to_rust(&TypeInfo::Primitive("PublicKey".to_string())), "Pubkey");
    assert_eq!(
        type_info_to_rust(&TypeInfo::Array(Box::new(TypeInfo::Primitive("u8".to_string())))),
        "Vec<u8>"
    );
}

#[test]
fn account_types_are_inferred_from_field_types() {
    assert_eq!(
        infer_account_type(&TypeInfo::UserDefined("Program<Token>".to_string())),
        AnchorAccountType::Program("Token".to_string())
    );
    assert_eq!(
        infer_account_type(&TypeInfo::UserDefined("Sysvar<Clock".to_string())),
        AnchorAccountType::Sysvar("Rent".to_string())
    );
    assert_eq!(
        infer_account_type(&TypeInfo::Primitive("Signer".to_string())),
        AnchorAccountType::Signer
    );
    assert_eq!(
        infer_account_type(&TypeInfo::UserDefined("Vault".to_string())),
        AnchorAccountType::Account("Vault".to_string())
    );
    assert_eq!(
        infer_account_type(&TypeInfo::Primitive("u64".to_string())),
        AnchorAccountType::AccountInfo
    );
}

fn field(name: &str, ty: TypeInfo) -> FieldDefinition {
    FieldDefinition {
        name: name.to_string(),
        type_info: ty,
        optional: false,
        deprecated: None,
        anchor_attrs: vec![],
    }
}

#[test]
fn instruction_context_is_read_from_marked_struct() {
    let sd = StructDefinition {
        name: "InitializeVault".to_string(),
        generic_params: vec![],
        fields: vec![
            field("vault", TypeInfo::UserDefined("VaultAccount".to_string())),
            field("authority", TypeInfo::UserDefined("Signer".to_string())),
            field("system_program", TypeInfo::UserDefined("Program<System>".to_string())),
        ],
        metadata: Metadata {
            attributes: vec!["instruction".to_string()],
            ..Default::default()
        },
        visibility: Visibility::Public,
        module_segments: vec![],
    };
    let attrs = vec![
        ("vault".to_string(), vec!["init, payer = authority, space = 8 + 64".to_string()]),
        ("authority".to_string(), vec!["mut".to_string()]),
    ];
    let ctx = parse_instruction_context(&sd, &attrs).unwrap();
    assert_eq!(ctx.name, "InitializeVault");
    assert_eq!(ctx.accounts.len(), 3);
    assert_eq!(ctx.accounts[0].attrs.len(), 3);
    assert_eq!(ctx.accounts[1].account_type, AnchorAccountType::Signer);
    assert_eq!(ctx.accounts[1].attrs, vec![AnchorAccountAttr::Mut]);
    assert_eq!(
        ctx.accounts[2].account_type,
        AnchorAccountType::Program("System".to_string())
    );
    let out = generate_accounts_context(&ctx);
    assert!(out.contains("pub vault: Account<'info, VaultAccount>"));
    assert!(out.contains("#[account(init, payer = authority, space = 8 + 64)]"));

    let mut plain = sd.clone();
    plain.metadata.attributes = vec!["account".to_string()];
    assert!(parse_instruction_context(&plain, &attrs).is_none());
}
