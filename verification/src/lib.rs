pub mod certs;
pub mod cli;
pub mod codec;
pub mod document;
pub mod dossier;
pub mod error;
pub mod output;
pub mod parsed;
pub mod seqs;
pub mod signature;
pub mod text;
pub mod transform;
pub mod verify;
pub mod web;
pub mod xml;

pub use crate::document::{DocumentEntry, ExtractedDocument, ExtractionCapability, MimeType};
pub use crate::dossier::Dossier;
pub use crate::error::{Error, Result};
pub use crate::transform::{ExtractionUnavailableReason, Transform};
pub use crate::verify::{
    verify_str, verify_structure_str, DossierValidationError, Finding, SignatureEvidence,
    SignatureFinding, SignatureFindingKind, SignatureKeyInfo, SignatureReference, SignatureReport,
    SignatureResult, SignatureScope, SignerCertificateReport, StructureReport,
    ValidationLayerStatus, ValidationLayers, VerificationFailed, VerificationOptions,
    VerificationReport, XadesSigningCertificateStatus,
};
