//! Anchor framework support: account attributes and instruction contexts,
//! and IDL generation with account space calculation.

pub mod attributes;
pub mod idl;

pub use attributes::{
    generate_accounts_context, parse_anchor_attrs, parse_instruction_context, AnchorAccountAttr,
    AnchorAccountType, AnchorFieldAttrs, InstructionAccount, InstructionArg, InstructionContext,
    SeedComponent,
};
pub use idl::{
    Idl, IdlAccount, IdlAccountItem, IdlEnumVariant, IdlField, IdlGenerator, IdlGeneratorConfig,
    IdlInstruction, IdlType, IdlTypeDef, IdlTypeDefTy,
};
