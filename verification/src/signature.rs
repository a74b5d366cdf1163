//! Signature verification: which signatures a verification covers, what each
//! one carries, the text that is handed to the XMLDSIG verifier, and the
//! policy and trust decisions taken on what it reports.
use vstd::prelude::*;
use vstd::string::StringExecFns;
use crate::certs::{
    sha256_digest, spec_sha256, spec_x509_der_error, x509_der_error,
};
use crate::codec::{base64_decode, spec_base64_decode};
use crate::seqs::{first_of, lemma_filter_empty, lemma_filter_take_succ, lemma_first_match, lemma_take_full};
use crate::text::{is_unicode_whitespace, is_whitespace, opt_view, string_push};
use crate::verify::{SignatureEvidence, SignatureScope};
use crate::xml::{
    spec_ids, spec_is_ds, spec_is_element_named, spec_is_non_dsig, XmlNode, XmlNodeView, XmlTree,
};

verus! {

broadcast use vstd::string::group_string_axioms;

// ---------------------------------------------------------------------------
// Walking the tree
// ---------------------------------------------------------------------------

/// How a node is tested against a name.
#[derive(Clone, Copy, Debug, PartialEq, Eq, Structural)]
pub enum NodeTest {
    /// An XML Signature element with the name.
    Ds,
    /// An element with the name outside the XML Signature namespace.
    NonDsig,
    /// An element with the name, in any namespace.
    Local,
}

/// Whether a node passes a test against a name.
pub open spec fn spec_node_test(test: NodeTest, node: XmlNodeView, name: Seq<char>) -> bool {
    match test {
        NodeTest::Ds => spec_is_ds(node, name),
        NodeTest::NonDsig => spec_is_non_dsig(node, name),
        NodeTest::Local => spec_is_element_named(node, name),
    }
}

/// Whether a node passes a test against a name.
pub fn node_test(test: NodeTest, node: &XmlNode, name: &str) -> (res: bool)
    ensures
        res == spec_node_test(test, node@, name@),
{
    match test {
        NodeTest::Ds => crate::xml::is_ds(node, name),
        NodeTest::NonDsig => crate::xml::is_non_dsig(node, name),
        NodeTest::Local => node.kind == crate::xml::XmlNodeKind::Element && crate::text::str_eq(
            node.name.as_str(),
            name,
        ),
    }
}

/// Whether node `a` is node `d` or one of its ancestors.
pub open spec fn spec_is_ancestor_or_self(nodes: Seq<XmlNodeView>, a: usize, d: usize) -> bool
    decreases d,
{
    if d == a {
        true
    } else if d >= nodes.len() {
        false
    } else {
        match nodes[d as int].parent {
            Some(p) => if p < d {
                spec_is_ancestor_or_self(nodes, a, p)
            } else {
                false
            },
            None => false,
        }
    }
}

/// Whether node `a` is node `d` or one of its ancestors.
pub fn is_ancestor_or_self(tree: &XmlTree, a: usize, d: usize) -> (res: bool)
    requires
        tree.wf(),
        d < tree@.len(),
    ensures
        res == spec_is_ancestor_or_self(tree@, a, d),
{
    let ghost nodes = tree@;
    let mut current = d;
    loop
        invariant
            nodes == tree@,
            tree.wf(),
            current < nodes.len(),
            spec_is_ancestor_or_self(nodes, a, d) == spec_is_ancestor_or_self(nodes, a, current),
        decreases current,
    {
        if current == a {
            return true;
        }
        match tree.node(current).parent {
            Some(p) => {
                assert(nodes[current as int].parent == Some(p));
                if p < current {
                    current = p;
                } else {
                    return false;
                }
            },
            None => {
                return false;
            },
        }
    }
}

/// The test that picks, among all nodes, those under node `n` (`n`
/// included) that pass a test against a name.
pub open spec fn descendant_test(nodes: Seq<XmlNodeView>, n: usize, test: NodeTest, name: Seq<char>) -> spec_fn(usize) -> bool {
    |m: usize| spec_is_ancestor_or_self(nodes, n, m) && spec_node_test(test, nodes[m as int], name)
}

/// The nodes under node `n` (`n` included) that pass a test against a name,
/// in document order (`Node::descendants` filtered).
pub open spec fn spec_matching_descendants(nodes: Seq<XmlNodeView>, n: usize, test: NodeTest, name: Seq<char>) -> Seq<usize> {
    spec_ids(nodes.len()).filter(descendant_test(nodes, n, test, name))
}

/// The nodes under node `n` (`n` included) that pass a test against a name,
/// in document order.
pub fn matching_descendants(tree: &XmlTree, n: usize, test: NodeTest, name: &str) -> (res: Vec<usize>)
    requires
        tree.wf(),
    ensures
        res@ == spec_matching_descendants(tree@, n, test, name@),
        forall|j: int| 0 <= j < res@.len() ==> res@[j] < tree@.len(),
        res@.len() <= tree@.len(),
{
    let ghost nodes = tree@;
    let ghost pred = descendant_test(nodes, n, test, name@);
    let ghost ids = spec_ids(nodes.len());
    let count = tree.len();
    let mut res: Vec<usize> = Vec::new();
    let mut k: usize = 0;
    proof {
        lemma_filter_empty(ids.take(0), pred);
    }
    while k < count
        invariant
            k <= count,
            count == nodes.len(),
            nodes == tree@,
            tree.wf(),
            ids == spec_ids(nodes.len()),
            pred == descendant_test(nodes, n, test, name@),
            res@ == ids.take(k as int).filter(pred),
            forall|j: int| 0 <= j < res@.len() ==> res@[j] < k,
        decreases count - k,
    {
        proof {
            lemma_filter_take_succ(ids, k as int, pred);
        }
        if is_ancestor_or_self(tree, n, k) && node_test(test, tree.node(k), name) {
            res.push(k);
        }
        k = k + 1;
    }
    proof {
        lemma_take_full(ids);
        ids.lemma_filter_len(pred);
    }
    res
}

/// The first node under node `n` (`n` included) that passes a test.
pub fn first_descendant(tree: &XmlTree, n: usize, test: NodeTest, name: &str) -> (res: Option<usize>)
    requires
        tree.wf(),
    ensures
        res == first_of(spec_matching_descendants(tree@, n, test, name@)),
        res matches Some(m) ==> m < tree@.len(),
{
    let matches = matching_descendants(tree, n, test, name);
    if matches.len() > 0 {
        Some(matches[0])
    } else {
        None
    }
}

/// The nearest of node `d` and its ancestors that passes a test
/// (`Node::ancestors` searched).
pub open spec fn spec_nearest(nodes: Seq<XmlNodeView>, d: usize, test: NodeTest, name: Seq<char>) -> Option<usize>
    decreases d,
{
    if d >= nodes.len() {
        None
    } else if spec_node_test(test, nodes[d as int], name) {
        Some(d)
    } else {
        match nodes[d as int].parent {
            Some(p) => if p < d {
                spec_nearest(nodes, p, test, name)
            } else {
                None
            },
            None => None,
        }
    }
}

/// The nearest of node `d` and its ancestors that passes a test.
pub fn nearest(tree: &XmlTree, d: usize, test: NodeTest, name: &str) -> (res: Option<usize>)
    requires
        tree.wf(),
        d < tree@.len(),
    ensures
        res == spec_nearest(tree@, d, test, name@),
        res matches Some(m) ==> m < tree@.len(),
{
    let ghost nodes = tree@;
    let mut current = d;
    loop
        invariant
            nodes == tree@,
            tree.wf(),
            current < nodes.len(),
            spec_nearest(nodes, d, test, name@) == spec_nearest(nodes, current, test, name@),
        decreases current,
    {
        if node_test(test, tree.node(current), name) {
            return Some(current);
        }
        match tree.node(current).parent {
            Some(p) => {
                if p < current {
                    current = p;
                } else {
                    return None;
                }
            },
            None => {
                return None;
            },
        }
    }
}

// ---------------------------------------------------------------------------
// What a signature carries
// ---------------------------------------------------------------------------

/// A text without its Unicode whitespace.
pub open spec fn spec_strip_whitespace(text: Seq<char>) -> Seq<char> {
    text.filter(|c: char| !is_unicode_whitespace(c))
}

/// A text without its Unicode whitespace.
pub fn strip_whitespace(text: &str) -> (res: String)
    ensures
        res@ == spec_strip_whitespace(text@),
{
    let ghost pred = |c: char| !is_unicode_whitespace(c);
    let mut out = String::new();
    proof {
        lemma_filter_empty(text@.take(0), pred);
    }
    for c in it: text.chars()
        invariant
            pred == (|c: char| !is_unicode_whitespace(c)),
            it.seq() == text@,
            out@ == text@.take(it.index() as int).filter(pred),
    {
        proof {
            lemma_filter_take_succ(text@, it.index() as int, pred);
        }
        if !is_whitespace(c) {
            string_push(&mut out, c);
        }
    }
    proof {
        lemma_take_full(text@);
    }
    out
}

/// The bytes that a node's text holds in base64, whitespace ignored;
/// nothing when it has no text or the text is not base64.
pub open spec fn spec_node_base64(node: XmlNodeView) -> Option<Seq<u8>> {
    match node.text {
        Some(text) => match spec_base64_decode(spec_strip_whitespace(text)) {
            Ok(bytes) => Some(bytes),
            Err(_) => None,
        },
        None => None,
    }
}

/// The bytes that a node's text holds in base64, whitespace ignored.
pub fn node_base64(tree: &XmlTree, id: usize) -> (res: Option<Vec<u8>>)
    requires
        id < tree@.len(),
    ensures
        match res {
            Some(bytes) => spec_node_base64(tree@[id as int]) == Some(bytes@),
            None => spec_node_base64(tree@[id as int]) is None,
        },
{
    match &tree.node(id).text {
        Some(text) => {
            let cleaned = strip_whitespace(text.as_str());
            match base64_decode(cleaned.as_str()) {
                Ok(bytes) => Some(bytes),
                Err(_) => None,
            }
        },
        None => None,
    }
}

/// The certificate in a signature's key information: the first
/// `ds:X509Certificate` under its first `ds:KeyInfo` child, decoded.
pub open spec fn spec_key_info_certificate(nodes: Seq<XmlNodeView>, signature: usize) -> Option<Seq<u8>> {
    match first_of(crate::xml::spec_children_ds(nodes, signature, "KeyInfo"@)) {
        Some(key_info) => match first_of(spec_matching_descendants(nodes, key_info, NodeTest::Ds, "X509Certificate"@)) {
            Some(certificate) => spec_node_base64(nodes[certificate as int]),
            None => None,
        },
        None => None,
    }
}

/// The certificate in a signature's key information, decoded.
pub fn key_info_certificate(tree: &XmlTree, signature: usize) -> (res: Option<Vec<u8>>)
    requires
        tree.wf(),
        signature < tree@.len(),
    ensures
        match res {
            Some(bytes) => spec_key_info_certificate(tree@, signature) == Some(bytes@),
            None => spec_key_info_certificate(tree@, signature) is None,
        },
{
    let key_infos = tree.children_ds(signature, "KeyInfo");
    if key_infos.len() == 0 {
        return None;
    }
    match first_descendant(tree, key_infos[0], NodeTest::Ds, "X509Certificate") {
        Some(certificate) => node_base64(tree, certificate),
        None => None,
    }
}

/// How many nodes under a signature are elements with a local name.
pub open spec fn spec_local_count(nodes: Seq<XmlNodeView>, signature: usize, name: Seq<char>) -> nat {
    spec_matching_descendants(nodes, signature, NodeTest::Local, name).len()
}

/// The validation evidence that a signature carries: time stamps, and
/// encapsulated certificates, OCSP responses and CRLs.
pub open spec fn spec_evidence(nodes: Seq<XmlNodeView>, signature: usize) -> SignatureEvidence {
    SignatureEvidence {
        timestamp_count: spec_local_count(nodes, signature, "SignatureTimeStamp"@) as usize,
        certificate_value_count: spec_local_count(nodes, signature, "EncapsulatedX509Certificate"@) as usize,
        ocsp_value_count: spec_local_count(nodes, signature, "EncapsulatedOCSPValue"@) as usize,
        crl_value_count: spec_local_count(nodes, signature, "EncapsulatedCRLValue"@) as usize,
    }
}

/// The validation evidence that a signature carries.
pub fn signature_evidence(tree: &XmlTree, signature: usize) -> (res: SignatureEvidence)
    requires
        tree.wf(),
    ensures
        res == spec_evidence(tree@, signature),
{
    SignatureEvidence {
        timestamp_count: matching_descendants(tree, signature, NodeTest::Local, "SignatureTimeStamp").len(),
        certificate_value_count: matching_descendants(tree, signature, NodeTest::Local, "EncapsulatedX509Certificate").len(),
        ocsp_value_count: matching_descendants(tree, signature, NodeTest::Local, "EncapsulatedOCSPValue").len(),
        crl_value_count: matching_descendants(tree, signature, NodeTest::Local, "EncapsulatedCRLValue").len(),
    }
}

/// The certificates that the given nodes encapsulate: each node's text
/// decoded, kept when it is a certificate.
pub open spec fn spec_encapsulated(nodes: Seq<XmlNodeView>, ids: Seq<usize>) -> Seq<Seq<u8>>
    decreases ids.len(),
{
    if ids.len() == 0 {
        Seq::empty()
    } else {
        let prev = spec_encapsulated(nodes, ids.drop_last());
        match spec_node_base64(nodes[ids.last() as int]) {
            Some(bytes) => if spec_x509_der_error(bytes) is None {
                prev.push(bytes)
            } else {
                prev
            },
            None => prev,
        }
    }
}

/// The certificates encapsulated under a signature, in document order.
pub open spec fn spec_embedded_certificates(nodes: Seq<XmlNodeView>, signature: usize) -> Seq<Seq<u8>> {
    spec_encapsulated(nodes, spec_matching_descendants(nodes, signature, NodeTest::Local, "EncapsulatedX509Certificate"@))
}

/// The certificates encapsulated under a signature, in document order.
pub fn embedded_certificate_values(tree: &XmlTree, signature: usize) -> (res: Vec<Vec<u8>>)
    requires
        tree.wf(),
    ensures
        crate::certs::bytes_view(res@) == spec_embedded_certificates(tree@, signature),
{
    let ids = matching_descendants(tree, signature, NodeTest::Local, "EncapsulatedX509Certificate");
    let mut values: Vec<Vec<u8>> = Vec::new();
    let mut k: usize = 0;
    assert(crate::certs::bytes_view(values@) =~= spec_encapsulated(tree@, ids@.take(0)));
    while k < ids.len()
        invariant
            k <= ids@.len(),
            tree.wf(),
            forall|j: int| 0 <= j < ids@.len() ==> ids@[j] < tree@.len(),
            crate::certs::bytes_view(values@) == spec_encapsulated(tree@, ids@.take(k as int)),
        decreases ids@.len() - k,
    {
        proof {
            assert(ids@.take(k + 1).drop_last() =~= ids@.take(k as int));
            assert(ids@.take(k + 1).last() == ids@[k as int]);
        }
        match node_base64(tree, ids[k]) {
            Some(bytes) => {
                if x509_der_error(bytes.as_slice()).is_none() {
                    proof {
                        assert(crate::certs::bytes_view(values@.push(bytes)) =~= crate::certs::bytes_view(values@).push(bytes@));
                    }
                    values.push(bytes);
                }
            },
            None => {},
        }
        k = k + 1;
    }
    assert(ids@.take(k as int) =~= ids@);
    values
}

/// What a XAdES `Cert` element's digest says: nothing when it holds no
/// `ds:DigestValue`, otherwise the first one's decoded value (nothing when it
/// is not base64).
pub open spec fn spec_cert_digest(nodes: Seq<XmlNodeView>, cert: usize) -> Option<Option<Seq<u8>>> {
    match first_of(spec_matching_descendants(nodes, cert, NodeTest::Ds, "DigestValue"@)) {
        Some(d) => Some(spec_node_base64(nodes[d as int])),
        None => None,
    }
}

/// How a signature's XAdES `SigningCertificate` digests relate to the
/// signer certificate: one matching digest makes it matched; no digest at
/// all, not present; an undecodable digest, invalid; otherwise mismatched.
pub open spec fn spec_xades_status(nodes: Seq<XmlNodeView>, signature: usize, der: Seq<u8>) -> crate::verify::XadesSigningCertificateStatus {
    let certs = spec_matching_descendants(nodes, signature, NodeTest::NonDsig, "Cert"@);
    let actual = spec_sha256(der);
    if exists|i: int| 0 <= i < certs.len() && #[trigger] spec_cert_digest(nodes, certs[i]) == Some(Some(actual)) {
        crate::verify::XadesSigningCertificateStatus::Matched
    } else if forall|i: int| 0 <= i < certs.len() ==> #[trigger] spec_cert_digest(nodes, certs[i]) is None {
        crate::verify::XadesSigningCertificateStatus::NotPresent
    } else if exists|i: int| 0 <= i < certs.len() && #[trigger] spec_cert_digest(nodes, certs[i]) == Some(None::<Seq<u8>>) {
        crate::verify::XadesSigningCertificateStatus::Invalid
    } else {
        crate::verify::XadesSigningCertificateStatus::Mismatched
    }
}

/// Whether two byte strings are equal.
pub fn bytes_equal(a: &[u8], b: &[u8]) -> (res: bool)
    ensures
        res == (a@ == b@),
{
    if a.len() != b.len() {
        return false;
    }
    let mut k: usize = 0;
    while k < a.len()
        invariant
            k <= a@.len(),
            a@.len() == b@.len(),
            forall|j: int| 0 <= j < k ==> a@[j] == b@[j],
        decreases a@.len() - k,
    {
        if a[k] != b[k] {
            return false;
        }
        k = k + 1;
    }
    assert(a@ =~= b@);
    true
}

/// How a signature's XAdES `SigningCertificate` digests relate to the
/// signer certificate.
pub fn xades_signing_certificate_status(tree: &XmlTree, signature: usize, der: &[u8]) -> (res: crate::verify::XadesSigningCertificateStatus)
    requires
        tree.wf(),
    ensures
        res == spec_xades_status(tree@, signature, der@),
{
    let ghost nodes = tree@;
    let actual = sha256_digest(der);
    let certs = matching_descendants(tree, signature, NodeTest::NonDsig, "Cert");
    let ghost cs = certs@;
    let mut found = false;
    let mut invalid = false;
    let mut k: usize = 0;
    while k < certs.len()
        invariant
            k <= cs.len(),
            cs == certs@,
            nodes == tree@,
            tree.wf(),
            cs == spec_matching_descendants(nodes, signature, NodeTest::NonDsig, "Cert"@),
            forall|j: int| 0 <= j < cs.len() ==> cs[j] < nodes.len(),
            actual@ == spec_sha256(der@),
            forall|j: int| 0 <= j < k ==> #[trigger] spec_cert_digest(nodes, cs[j]) != Some(Some(actual@)),
            found == exists|j: int| 0 <= j < k && #[trigger] spec_cert_digest(nodes, cs[j]) is Some,
            invalid == exists|j: int| 0 <= j < k && #[trigger] spec_cert_digest(nodes, cs[j]) == Some(None::<Seq<u8>>),
        decreases cs.len() - k,
    {
        let cert = certs[k];
        let ghost digest = spec_cert_digest(nodes, cs[k as int]);
        match first_descendant(tree, cert, NodeTest::Ds, "DigestValue") {
            None => {
                assert(digest is None);
            },
            Some(digest_value) => {
                found = true;
                match node_base64(tree, digest_value) {
                    Some(expected) => {
                        if bytes_equal(expected.as_slice(), actual.as_slice()) {
                            assert(spec_cert_digest(nodes, cs[k as int]) == Some(Some(actual@)));
                            return crate::verify::XadesSigningCertificateStatus::Matched;
                        }
                    },
                    None => {
                        invalid = true;
                    },
                }
            },
        }
        k = k + 1;
    }
    if !found {
        crate::verify::XadesSigningCertificateStatus::NotPresent
    } else if invalid {
        crate::verify::XadesSigningCertificateStatus::Invalid
    } else {
        crate::verify::XadesSigningCertificateStatus::Mismatched
    }
}

// ---------------------------------------------------------------------------
// Which signatures are verified
// ---------------------------------------------------------------------------

/// A signature to verify: its node and its scope.
#[derive(Clone, Copy, Debug, PartialEq, Eq, Structural)]
pub struct SignatureTarget {
    pub node: usize,
    pub scope: SignatureScope,
}

/// The scope of a signature: the dossier's when it is a child of the root
/// element, a document's when it lies inside a `Document` element, none
/// otherwise.
pub open spec fn spec_signature_scope(nodes: Seq<XmlNodeView>, signature: usize, root: Option<usize>) -> Option<SignatureScope> {
    if root is Some && nodes[signature as int].parent == root {
        Some(SignatureScope::Dossier)
    } else if spec_nearest(nodes, signature, NodeTest::NonDsig, "Document"@) is Some {
        Some(SignatureScope::Document)
    } else {
        None
    }
}

/// The scope of a signature.
pub fn signature_scope(tree: &XmlTree, signature: usize, root: Option<usize>) -> (res: Option<SignatureScope>)
    requires
        tree.wf(),
        signature < tree@.len(),
    ensures
        res == spec_signature_scope(tree@, signature, root),
{
    if root.is_some() && tree.node(signature).parent == root {
        return Some(SignatureScope::Dossier);
    }
    if nearest(tree, signature, NodeTest::NonDsig, "Document").is_some() {
        Some(SignatureScope::Document)
    } else {
        None
    }
}

/// Whether a scope is among those selected.
pub open spec fn scope_selected(selected: SignatureScope, scope: SignatureScope) -> bool {
    selected == SignatureScope::All || scope == selected
}

/// The signatures among the first `k` nodes that have a scope and are
/// selected, in document order.
pub open spec fn spec_targets_upto(nodes: Seq<XmlNodeView>, k: nat, root: Option<usize>, selected: SignatureScope) -> Seq<SignatureTarget>
    decreases k,
{
    if k == 0 {
        Seq::empty()
    } else {
        let prev = spec_targets_upto(nodes, (k - 1) as nat, root, selected);
        let node = (k - 1) as usize;
        if spec_is_ds(nodes[node as int], "Signature"@) {
            match spec_signature_scope(nodes, node, root) {
                Some(scope) => if scope_selected(selected, scope) {
                    prev.push(SignatureTarget { node, scope })
                } else {
                    prev
                },
                None => prev,
            }
        } else {
            prev
        }
    }
}

/// The signatures that a verification of the selected scope covers: every
/// `ds:Signature` element with a scope, that scope selected, in document
/// order.
pub open spec fn spec_signature_targets(nodes: Seq<XmlNodeView>, selected: SignatureScope) -> Seq<SignatureTarget> {
    spec_targets_upto(nodes, nodes.len(), crate::parsed::spec_root_element(nodes), selected)
}

/// Every target lies in the tree and has a concrete scope.
proof fn lemma_targets_upto(nodes: Seq<XmlNodeView>, k: nat, root: Option<usize>, selected: SignatureScope)
    requires
        k <= nodes.len(),
    ensures
        forall|i: int| 0 <= i < spec_targets_upto(nodes, k, root, selected).len() ==> {
            &&& (#[trigger] spec_targets_upto(nodes, k, root, selected)[i]).node < k
            &&& spec_targets_upto(nodes, k, root, selected)[i].scope != SignatureScope::All
        },
        spec_targets_upto(nodes, k, root, selected).len() <= k,
    decreases k,
{
    if k > 0 {
        lemma_targets_upto(nodes, (k - 1) as nat, root, selected);
    }
}

/// The signatures that a verification of the selected scope covers.
pub fn signature_targets(tree: &XmlTree, selected: SignatureScope) -> (res: Vec<SignatureTarget>)
    requires
        tree.wf(),
    ensures
        res@ == spec_signature_targets(tree@, selected),
        forall|i: int| 0 <= i < res@.len() ==> (#[trigger] res@[i]).node < tree@.len() && res@[i].scope != SignatureScope::All,
        res@.len() <= tree@.len(),
{
    let ghost nodes = tree@;
    let root = crate::parsed::root_element(tree);
    let mut targets: Vec<SignatureTarget> = Vec::new();
    let mut k: usize = 0;
    while k < tree.len()
        invariant
            k <= nodes.len(),
            nodes == tree@,
            tree.wf(),
            root == crate::parsed::spec_root_element(nodes),
            targets@ == spec_targets_upto(nodes, k as nat, root, selected),
        decreases nodes.len() - k,
    {
        if crate::xml::is_ds(tree.node(k), "Signature") {
            match signature_scope(tree, k, root) {
                Some(scope) => {
                    if selected == SignatureScope::All || scope == selected {
                        targets.push(SignatureTarget { node: k, scope });
                    }
                },
                None => {},
            }
        }
        k = k + 1;
    }
    proof {
        lemma_targets_upto(nodes, nodes.len(), root, selected);
    }
    targets
}

/// How many targets are the dossier's own signatures.
pub open spec fn dossier_target_count(targets: Seq<SignatureTarget>) -> nat {
    targets.filter(|t: SignatureTarget| t.scope == SignatureScope::Dossier).len()
}

/// How many targets are the dossier's own signatures.
pub fn count_dossier_targets(targets: &Vec<SignatureTarget>) -> (res: usize)
    ensures
        res == dossier_target_count(targets@),
{
    let ghost pred = |t: SignatureTarget| t.scope == SignatureScope::Dossier;
    let mut count: usize = 0;
    let mut k: usize = 0;
    proof {
        lemma_filter_empty(targets@.take(0), pred);
    }
    while k < targets.len()
        invariant
            k <= targets@.len(),
            pred == (|t: SignatureTarget| t.scope == SignatureScope::Dossier),
            count == targets@.take(k as int).filter(pred).len(),
            count <= k,
        decreases targets@.len() - k,
    {
        proof {
            lemma_filter_take_succ(targets@, k as int, pred);
        }
        if targets[k].scope == SignatureScope::Dossier {
            count = count + 1;
        }
        k = k + 1;
    }
    proof {
        lemma_take_full(targets@);
    }
    count
}

// ---------------------------------------------------------------------------
// Reference policy
// ---------------------------------------------------------------------------

/// The list with `#`Id of a node appended, when the node exists, has an
/// `Id` attribute, and the URI is not listed yet.
pub open spec fn spec_push_id_uri(uris: Seq<Seq<char>>, nodes: Seq<XmlNodeView>, node: Option<usize>) -> Seq<Seq<char>> {
    match node {
        Some(n) => match crate::xml::spec_attribute(nodes[n as int], "Id"@) {
            Some(id) => if uris.contains("#"@ + id) {
                uris
            } else {
                uris.push("#"@ + id)
            },
            None => uris,
        },
        None => uris,
    }
}

/// Appends `#`Id of a node when it exists, has an `Id` attribute, and the URI
/// is not listed yet.
pub fn push_id_uri(uris: &mut Vec<String>, tree: &XmlTree, node: Option<usize>)
    requires
        node matches Some(n) ==> n < tree@.len(),
    ensures
        crate::verify::strings_view(final(uris)@) == spec_push_id_uri(crate::verify::strings_view(old(uris)@), tree@, node),
{
    let n = match node {
        Some(n) => n,
        None => return,
    };
    let id = match tree.attribute(n, "Id") {
        Some(id) => id,
        None => return,
    };
    let uri = crate::text::concat2("#", id.as_str());
    let ghost listed = crate::verify::strings_view(uris@);
    let mut k: usize = 0;
    while k < uris.len()
        invariant
            k <= uris@.len(),
            listed == crate::verify::strings_view(uris@),
            uris@ == old(uris)@,
            node == Some(n),
            n < tree@.len(),
            uri@ == "#"@ + id@,
            crate::xml::spec_attribute(tree@[n as int], "Id"@) == Some(id@),
            forall|j: int| 0 <= j < k ==> listed[j] != uri@,
        decreases uris@.len() - k,
    {
        if crate::text::str_eq(uris[k].as_str(), uri.as_str()) {
            assert(listed[k as int] == uri@);
            assert(listed.contains(uri@));
            return;
        }
        k = k + 1;
    }
    proof {
        assert(!listed.contains(uri@));
        assert(crate::verify::strings_view(uris@.push(uri)) =~= listed.push(uri@));
    }
    uris.push(uri);
}

/// The references that a signature must cover: for the dossier's signature,
/// its `Documents` and `DossierProfile`; for a document's, that document's
/// profile and first payload; and for any, its own `SignatureProfile` and
/// `SignedProperties`, each by `#`Id, once.
pub open spec fn spec_expected_references(nodes: Seq<XmlNodeView>, root: Option<usize>, target: SignatureTarget) -> Seq<Seq<char>> {
    let none = Seq::<Seq<char>>::empty();
    let scoped = match target.scope {
        SignatureScope::Dossier => match root {
            Some(r) => spec_push_id_uri(
                spec_push_id_uri(none, nodes, crate::xml::spec_child_non_dsig(nodes, r, "Documents"@)),
                nodes,
                crate::xml::spec_child_non_dsig(nodes, r, "DossierProfile"@),
            ),
            None => none,
        },
        SignatureScope::Document => match spec_nearest(nodes, target.node, NodeTest::NonDsig, "Document"@) {
            Some(d) => spec_push_id_uri(
                spec_push_id_uri(none, nodes, crate::xml::spec_child_non_dsig(nodes, d, "DocumentProfile"@)),
                nodes,
                first_of(crate::xml::spec_children_ds(nodes, d, "Object"@)),
            ),
            None => none,
        },
        SignatureScope::All => none,
    };
    spec_push_id_uri(
        spec_push_id_uri(
            scoped,
            nodes,
            first_of(spec_matching_descendants(nodes, target.node, NodeTest::NonDsig, "SignatureProfile"@)),
        ),
        nodes,
        first_of(spec_matching_descendants(nodes, target.node, NodeTest::NonDsig, "SignedProperties"@)),
    )
}

/// Whether a text is `#` followed by the `Id` of some element.
pub open spec fn is_fragment_of_some_id(nodes: Seq<XmlNodeView>, uri: Seq<char>) -> bool {
    uri.len() >= 1 && uri[0] == '#' && exists|n: usize| #[trigger] crate::xml::spec_attribute(nodes[n as int], "Id"@) == Some(
        uri.drop_first(),
    )
}

/// What adding a node's URI does: the list keeps what it had, gains `#`
/// and the node's `Id` when the node has one, and gains nothing else.
proof fn lemma_push_id_uri(uris: Seq<Seq<char>>, nodes: Seq<XmlNodeView>, node: Option<usize>)
    ensures
        forall|u: Seq<char>| uris.contains(u) ==> #[trigger] spec_push_id_uri(uris, nodes, node).contains(u),
        match node {
            Some(n) => match crate::xml::spec_attribute(nodes[n as int], "Id"@) {
                Some(x) => spec_push_id_uri(uris, nodes, node).contains("#"@ + x),
                None => true,
            },
            None => true,
        },
        (forall|j: int| 0 <= j < uris.len() ==> is_fragment_of_some_id(nodes, #[trigger] uris[j])) ==> (forall|j: int|
            0 <= j < spec_push_id_uri(uris, nodes, node).len() ==> is_fragment_of_some_id(
                nodes,
                #[trigger] spec_push_id_uri(uris, nodes, node)[j],
            )),
{
    reveal_strlit("#");
    let r = spec_push_id_uri(uris, nodes, node);
    if let Some(n) = node {
        if let Some(x) = crate::xml::spec_attribute(nodes[n as int], "Id"@) {
            let uri = "#"@ + x;
            assert(uri[0] == '#');
            assert(uri.drop_first() =~= x);
            if uris.contains(uri) {
                assert(r == uris);
                assert(r.contains(uri));
            } else {
                assert(r == uris.push(uri));
                assert(r[r.len() - 1] == uri);
                assert(r.contains(uri));
                assert(r.last() == uri);
                assert forall|u: Seq<char>| uris.contains(u) implies #[trigger] r.contains(u) by {
                    let j = choose|j: int| 0 <= j < uris.len() && uris[j] == u;
                    assert(r[j] == u);
                }
                assert(r[r.len() - 1] == uri);
                if forall|j: int| 0 <= j < uris.len() ==> is_fragment_of_some_id(nodes, #[trigger] uris[j]) {
                    assert forall|j: int| 0 <= j < r.len() implies is_fragment_of_some_id(nodes, #[trigger] r[j]) by {
                        if j == uris.len() {
                            assert(crate::xml::spec_attribute(nodes[n as int], "Id"@) == Some(uri.drop_first()));
                        } else {
                            assert(r[j] == uris[j]);
                        }
                    }
                }
            }
        }
    }
}

/// Law: every reference a signature is required to cover is `#` followed by
/// the `Id` of an element of the tree; a dossier signature must cover the
/// dossier's documents element and profile by their `Id`s, a document
/// signature the document's profile, and every signature its own signed
/// properties.
pub proof fn law_required_references_are_id_fragments(nodes: Seq<XmlNodeView>, root: Option<usize>, target: SignatureTarget)
    ensures
        forall|j: int|
            0 <= j < spec_expected_references(nodes, root, target).len() ==> ({
                let uri = #[trigger] spec_expected_references(nodes, root, target)[j];
                uri.len() >= 1 && uri[0] == '#' && exists|n: usize| #[trigger] crate::xml::spec_attribute(
                    nodes[n as int],
                    "Id"@,
                ) == Some(uri.drop_first())
            }),
        target.scope == SignatureScope::Dossier ==> match root {
            Some(r) => match crate::xml::spec_child_non_dsig(nodes, r, "Documents"@) {
                Some(c) => match crate::xml::spec_attribute(nodes[c as int], "Id"@) {
                    Some(x) => spec_expected_references(nodes, root, target).contains("#"@ + x),
                    None => true,
                },
                None => true,
            },
            None => true,
        },
        target.scope == SignatureScope::Dossier ==> match root {
            Some(r) => match crate::xml::spec_child_non_dsig(nodes, r, "DossierProfile"@) {
                Some(c) => match crate::xml::spec_attribute(nodes[c as int], "Id"@) {
                    Some(x) => spec_expected_references(nodes, root, target).contains("#"@ + x),
                    None => true,
                },
                None => true,
            },
            None => true,
        },
        target.scope == SignatureScope::Document ==> match spec_nearest(nodes, target.node, NodeTest::NonDsig, "Document"@) {
            Some(d) => match crate::xml::spec_child_non_dsig(nodes, d, "DocumentProfile"@) {
                Some(c) => match crate::xml::spec_attribute(nodes[c as int], "Id"@) {
                    Some(x) => spec_expected_references(nodes, root, target).contains("#"@ + x),
                    None => true,
                },
                None => true,
            },
            None => true,
        },
        match first_of(spec_matching_descendants(nodes, target.node, NodeTest::NonDsig, "SignedProperties"@)) {
            Some(c) => match crate::xml::spec_attribute(nodes[c as int], "Id"@) {
                Some(x) => spec_expected_references(nodes, root, target).contains("#"@ + x),
                None => true,
            },
            None => true,
        },
{
    let none = Seq::<Seq<char>>::empty();
    let sp = first_of(spec_matching_descendants(nodes, target.node, NodeTest::NonDsig, "SignatureProfile"@));
    let props = first_of(spec_matching_descendants(nodes, target.node, NodeTest::NonDsig, "SignedProperties"@));
    let (a, b) = match target.scope {
        SignatureScope::Dossier => match root {
            Some(r) => (
                crate::xml::spec_child_non_dsig(nodes, r, "Documents"@),
                crate::xml::spec_child_non_dsig(nodes, r, "DossierProfile"@),
            ),
            None => (None, None),
        },
        SignatureScope::Document => match spec_nearest(nodes, target.node, NodeTest::NonDsig, "Document"@) {
            Some(d) => (
                crate::xml::spec_child_non_dsig(nodes, d, "DocumentProfile"@),
                first_of(crate::xml::spec_children_ds(nodes, d, "Object"@)),
            ),
            None => (None, None),
        },
        SignatureScope::All => (None, None),
    };
    let s1 = spec_push_id_uri(none, nodes, a);
    let s2 = spec_push_id_uri(s1, nodes, b);
    let s3 = spec_push_id_uri(s2, nodes, sp);
    let refs = spec_push_id_uri(s3, nodes, props);
    assert(spec_push_id_uri(none, nodes, None) == none);
    assert(refs == spec_expected_references(nodes, root, target));
    lemma_push_id_uri(none, nodes, a);
    lemma_push_id_uri(s1, nodes, b);
    lemma_push_id_uri(s2, nodes, sp);
    lemma_push_id_uri(s3, nodes, props);
    if let Some(c) = a {
        if let Some(x) = crate::xml::spec_attribute(nodes[c as int], "Id"@) {
            assert(s1.contains("#"@ + x));
            assert(s2.contains("#"@ + x));
            assert(s3.contains("#"@ + x));
            assert(refs.contains("#"@ + x));
        }
    }
    if let Some(c) = b {
        if let Some(x) = crate::xml::spec_attribute(nodes[c as int], "Id"@) {
            assert(s2.contains("#"@ + x));
            assert(s3.contains("#"@ + x));
            assert(refs.contains("#"@ + x));
        }
    }
    assert forall|j: int| 0 <= j < refs.len() implies is_fragment_of_some_id(nodes, #[trigger] refs[j]) by {}
}

/// The references that a signature must cover.
pub fn expected_reference_uris(tree: &XmlTree, root: Option<usize>, target: SignatureTarget) -> (res: Vec<String>)
    requires
        tree.wf(),
        target.node < tree@.len(),
        root matches Some(r) ==> r < tree@.len(),
    ensures
        crate::verify::strings_view(res@) == spec_expected_references(tree@, root, target),
{
    let mut uris: Vec<String> = Vec::new();
    assert(crate::verify::strings_view(uris@) =~= Seq::<Seq<char>>::empty());
    match target.scope {
        SignatureScope::Dossier => {
            if let Some(r) = root {
                push_id_uri(&mut uris, tree, tree.child_non_dsig(r, "Documents"));
                push_id_uri(&mut uris, tree, tree.child_non_dsig(r, "DossierProfile"));
            }
        },
        SignatureScope::Document => {
            if let Some(d) = nearest(tree, target.node, NodeTest::NonDsig, "Document") {
                push_id_uri(&mut uris, tree, tree.child_non_dsig(d, "DocumentProfile"));
                let objects = tree.children_ds(d, "Object");
                let first_object = if objects.len() > 0 {
                    Some(objects[0])
                } else {
                    None
                };
                push_id_uri(&mut uris, tree, first_object);
            }
        },
        SignatureScope::All => {},
    }
    push_id_uri(&mut uris, tree, first_descendant(tree, target.node, NodeTest::NonDsig, "SignatureProfile"));
    push_id_uri(&mut uris, tree, first_descendant(tree, target.node, NodeTest::NonDsig, "SignedProperties"));
    uris
}

/// The message that a missing required reference gets.
pub open spec fn missing_reference_message(scope: SignatureScope, uri: Seq<char>) -> Seq<char> {
    "XMLDSIG "@ + crate::verify::spec_scope_name(scope) + " signature is missing required reference "@ + uri
}

/// A policy finding about a signature.
pub open spec fn policy_finding(id: Option<Seq<char>>, message: Seq<char>) -> crate::verify::SignatureFindingView {
    crate::verify::SignatureFindingView {
        kind: crate::verify::SignatureFindingKind::VerificationPolicyDenied,
        signature_id: id,
        message,
    }
}

/// The findings about required references that a signature does not
/// cover, in the order they are required.
pub open spec fn spec_policy_findings(
    required: Seq<Seq<char>>,
    covered: Seq<Seq<char>>,
    id: Option<Seq<char>>,
    scope: SignatureScope,
) -> Seq<crate::verify::SignatureFindingView>
    decreases required.len(),
{
    if required.len() == 0 {
        Seq::empty()
    } else {
        let prev = spec_policy_findings(required.drop_last(), covered, id, scope);
        if covered.contains(required.last()) {
            prev
        } else {
            prev.push(policy_finding(id, missing_reference_message(scope, required.last())))
        }
    }
}

/// Records a policy error for each required reference that a signature
/// does not cover.
pub fn enforce_signature_policy(
    report: &mut crate::verify::SignatureReport,
    required: &Vec<String>,
    signature: &crate::verify::SignatureResult,
)
    ensures
        final(report)@ == (crate::verify::SignatureReportView {
            errors: old(report)@.errors + spec_policy_findings(
                crate::verify::strings_view(required@),
                signature@.references,
                signature@.id,
                signature@.scope,
            ),
            ..old(report)@
        }),
{
    let ghost start = report@;
    let ghost req = crate::verify::strings_view(required@);
    let ghost covered = signature@.references;
    let mut k: usize = 0;
    while k < required.len()
        invariant
            k <= required@.len(),
            req == crate::verify::strings_view(required@),
            covered == signature@.references,
            report@ == (crate::verify::SignatureReportView {
                errors: start.errors + spec_policy_findings(req.take(k as int), covered, signature@.id, signature@.scope),
                ..start
            }),
        decreases required@.len() - k,
    {
        let uri = &required[k];
        proof {
            assert(req.take(k + 1).drop_last() =~= req.take(k as int));
            assert(req.take(k + 1).last() == uri@);
        }
        let mut found = false;
        let mut j: usize = 0;
        while j < signature.references.len()
            invariant
                j <= signature.references@.len(),
                covered == signature@.references,
                covered.len() == signature.references@.len(),
                found == exists|i: int| 0 <= i < j && covered[i] == uri@,
            decreases signature.references@.len() - j,
        {
            assert(covered[j as int] == signature.references@[j as int].uri@);
            if crate::text::str_eq(signature.references[j].uri.as_str(), uri.as_str()) {
                found = true;
            }
            j = j + 1;
        }
        proof {
            if found {
                let i = choose|i: int| 0 <= i < j && covered[i] == uri@;
                assert(covered.contains(uri@));
            } else {
                assert(!covered.contains(uri@));
            }
        }
        if !found {
            let mut message = crate::text::concat3(
                "XMLDSIG ",
                crate::verify::scope_name(signature.scope),
                " signature is missing required reference ",
            );
            message.append(uri.as_str());
            let finding = crate::verify::SignatureFinding::with_signature_id(
                crate::verify::SignatureFindingKind::VerificationPolicyDenied,
                crate::text::clone_opt_string(&signature.id),
                message,
            );
            report.error(finding);
        }
        proof {
            assert(report@.errors =~= start.errors + spec_policy_findings(req.take(k + 1), covered, signature@.id, signature@.scope));
        }
        k = k + 1;
    }
    assert(req.take(k as int) =~= req);
}

// ---------------------------------------------------------------------------
// Trust
// ---------------------------------------------------------------------------

/// A trust finding about a signature.
pub open spec fn trust_finding(id: Option<Seq<char>>, message: Seq<char>) -> crate::verify::SignatureFindingView {
    crate::verify::SignatureFindingView {
        kind: crate::verify::SignatureFindingKind::TrustError,
        signature_id: id,
        message,
    }
}

/// Whether a signature's signer certificate is pinned and its XAdES digest
/// matched it.
pub open spec fn pin_matches(fingerprints: Seq<Seq<char>>, signature: crate::verify::SignatureResultView) -> bool {
    &&& signature.signer_certificate is Some
    &&& fingerprints.contains(signature.signer_certificate->Some_0.sha256_fingerprint)
    &&& signature.xades_signing_certificate == crate::verify::XadesSigningCertificateStatus::Matched
}

/// The finding about a signature that does not match a pinned certificate.
pub open spec fn pin_findings(fingerprints: Seq<Seq<char>>, signature: crate::verify::SignatureResultView) -> Seq<crate::verify::SignatureFindingView> {
    if pin_matches(fingerprints, signature) {
        Seq::empty()
    } else {
        match signature.signer_certificate {
            Some(c) => seq![
                trust_finding(
                    signature.id,
                    "signer certificate "@ + c.sha256_fingerprint
                        + " does not match a pinned certificate or its XAdES SigningCertificate digest"@,
                ),
            ],
            None => seq![
                trust_finding(signature.id, "signature does not expose a parseable signer certificate for pinning"@),
            ],
        }
    }
}

/// The finding about a signature whose trusted-anchor validation failed.
pub open spec fn anchor_findings(anchor: Result<(), Seq<char>>, signature: crate::verify::SignatureResultView) -> Seq<crate::verify::SignatureFindingView> {
    match anchor {
        Ok(()) => Seq::empty(),
        Err(reason) => seq![trust_finding(signature.id, "trusted-anchor certificate validation failed: "@ + reason)],
    }
}

/// The trust findings about a signature: against the pinned certificates
/// when some are pinned, then against the trusted anchors when some are
/// trusted (`anchor` holds what their validation reported).
pub open spec fn spec_trust_findings(
    pinned: bool,
    fingerprints: Seq<Seq<char>>,
    anchor: Option<Result<(), Seq<char>>>,
    signature: crate::verify::SignatureResultView,
) -> Seq<crate::verify::SignatureFindingView> {
    (if pinned { pin_findings(fingerprints, signature) } else { Seq::empty() }) + match anchor {
        Some(a) => anchor_findings(a, signature),
        None => Seq::empty(),
    }
}

/// A signature's trust: not checked when nothing is pinned or trusted;
/// passed when its value verified, it matches a pinned certificate (if any
/// is pinned) and the trusted anchors accept it (if any is trusted); failed
/// otherwise.
pub open spec fn spec_trust_status(
    pinned: bool,
    fingerprints: Seq<Seq<char>>,
    anchor: Option<Result<(), Seq<char>>>,
    signature: crate::verify::SignatureResultView,
) -> crate::verify::ValidationLayerStatus {
    if !pinned && anchor is None {
        crate::verify::ValidationLayerStatus::NotChecked
    } else if signature.signature_value_valid && (!pinned || pin_matches(fingerprints, signature)) && match anchor {
        Some(a) => a is Ok,
        None => true,
    } {
        crate::verify::ValidationLayerStatus::Passed
    } else {
        crate::verify::ValidationLayerStatus::Failed
    }
}

/// Law: pinning does not depend on where the signer's certificate stands
/// among the pinned ones. A verified signature whose signer certificate's
/// fingerprint is any one of the pinned fingerprints, and whose XAdES
/// digest matched that certificate, gets no trust finding from pinning and
/// passes trust (when no anchor is trusted); one whose fingerprint is none
/// of them gets exactly one trust finding and fails.
pub proof fn law_pinning_is_position_independent(
    fingerprints: Seq<Seq<char>>,
    signature: crate::verify::SignatureResultView,
    j: int,
)
    requires
        signature.signature_value_valid,
        signature.xades_signing_certificate == crate::verify::XadesSigningCertificateStatus::Matched,
        signature.signer_certificate is Some,
    ensures
        0 <= j < fingerprints.len() && fingerprints[j] == signature.signer_certificate->Some_0.sha256_fingerprint ==> {
            &&& spec_trust_findings(true, fingerprints, None, signature).len() == 0
            &&& spec_trust_status(true, fingerprints, None, signature) == crate::verify::ValidationLayerStatus::Passed
        },
        (forall|k: int| 0 <= k < fingerprints.len() ==> fingerprints[k] != signature.signer_certificate->Some_0.sha256_fingerprint)
            ==> {
            &&& spec_trust_findings(true, fingerprints, None, signature).len() == 1
            &&& spec_trust_findings(true, fingerprints, None, signature)[0].kind
                == crate::verify::SignatureFindingKind::TrustError
            &&& spec_trust_status(true, fingerprints, None, signature) == crate::verify::ValidationLayerStatus::Failed
        },
{
    let fp = signature.signer_certificate->Some_0.sha256_fingerprint;
    if 0 <= j < fingerprints.len() && fingerprints[j] == fp {
        assert(fingerprints.contains(fp));
        assert(spec_trust_findings(true, fingerprints, None, signature) =~= Seq::<crate::verify::SignatureFindingView>::empty());
    }
    if forall|k: int| 0 <= k < fingerprints.len() ==> fingerprints[k] != fp {
        assert(!fingerprints.contains(fp));
        assert(spec_trust_findings(true, fingerprints, None, signature) =~= pin_findings(fingerprints, signature));
    }
}

/// An anchor validation outcome as plain values.
pub open spec fn anchor_view(anchor: Option<Result<(), String>>) -> Option<Result<(), Seq<char>>> {
    match anchor {
        Some(Ok(())) => Some(Ok(())),
        Some(Err(reason)) => Some(Err(reason@)),
        None => None,
    }
}

/// Decides a verified signature's trust and records why it failed.
/// `pinned` says whether some certificate is pinned, `fingerprints` are the
/// pinned certificates' fingerprints, and `anchor` what validating against
/// the trusted anchors reported, when some are trusted.
pub fn apply_signature_trust(
    pinned: bool,
    fingerprints: &[String],
    anchor: &Option<Result<(), String>>,
    signature: &mut crate::verify::SignatureResult,
    report: &mut crate::verify::SignatureReport,
)
    ensures
        final(signature)@ == (crate::verify::SignatureResultView {
            trust: spec_trust_status(pinned, crate::verify::strings_view(fingerprints@), anchor_view(*anchor), old(signature)@),
            ..old(signature)@
        }),
        final(report)@ == (crate::verify::SignatureReportView {
            errors: old(report)@.errors + if !pinned && anchor is None {
                Seq::empty()
            } else {
                spec_trust_findings(pinned, crate::verify::strings_view(fingerprints@), anchor_view(*anchor), old(signature)@)
            },
            ..old(report)@
        }),
{
    let ghost start = report@;
    let ghost fps = crate::verify::strings_view(fingerprints@);
    let ghost sig = signature@;
    if !pinned && anchor.is_none() {
        signature.trust = crate::verify::ValidationLayerStatus::NotChecked;
        assert(report@.errors =~= start.errors + Seq::<crate::verify::SignatureFindingView>::empty());
        return;
    }
    let mut trusted = signature.signature_value_valid;
    if pinned {
        let matched = match &signature.signer_certificate {
            Some(certificate) => {
                let mut listed = false;
                let mut k: usize = 0;
                while k < fingerprints.len()
                    invariant
                        k <= fingerprints@.len(),
                        fps == crate::verify::strings_view(fingerprints@),
                        sig.signer_certificate == Some(certificate@),
                        listed == exists|j: int| 0 <= j < k && fps[j] == certificate@.sha256_fingerprint,
                    decreases fingerprints@.len() - k,
                {
                    assert(fps[k as int] == fingerprints@[k as int]@);
                    if crate::text::str_eq(fingerprints[k].as_str(), certificate.sha256_fingerprint.as_str()) {
                        listed = true;
                    }
                    k = k + 1;
                }
                proof {
                    if listed {
                        let j = choose|j: int| 0 <= j < k && fps[j] == certificate@.sha256_fingerprint;
                        assert(fps.contains(certificate@.sha256_fingerprint));
                    } else {
                        assert(!fps.contains(certificate@.sha256_fingerprint));
                    }
                }
                listed && signature.xades_signing_certificate == crate::verify::XadesSigningCertificateStatus::Matched
            },
            None => false,
        };
        if !matched {
            trusted = false;
            let message = match &signature.signer_certificate {
                Some(certificate) => crate::text::concat3(
                    "signer certificate ",
                    certificate.sha256_fingerprint.as_str(),
                    " does not match a pinned certificate or its XAdES SigningCertificate digest",
                ),
                None => "signature does not expose a parseable signer certificate for pinning".to_owned(),
            };
            report.error(crate::verify::SignatureFinding::with_signature_id(
                crate::verify::SignatureFindingKind::TrustError,
                crate::text::clone_opt_string(&signature.id),
                message,
            ));
        }
    }
    let ghost after_pin = report@;
    assert(after_pin.errors =~= start.errors + if pinned { pin_findings(fps, sig) } else { Seq::empty() });
    match anchor {
        Some(Err(reason)) => {
            trusted = false;
            report.error(crate::verify::SignatureFinding::with_signature_id(
                crate::verify::SignatureFindingKind::TrustError,
                crate::text::clone_opt_string(&signature.id),
                crate::text::concat2("trusted-anchor certificate validation failed: ", reason.as_str()),
            ));
        },
        _ => {},
    }
    assert(report@.errors =~= start.errors + spec_trust_findings(pinned, fps, anchor_view(*anchor), sig));
    signature.trust = if trusted {
        crate::verify::ValidationLayerStatus::Passed
    } else {
        crate::verify::ValidationLayerStatus::Failed
    };
}

// ---------------------------------------------------------------------------
// Certificates
// ---------------------------------------------------------------------------

/// The bytes that open a PEM block: `-----BEGIN`.
pub open spec fn pem_marker() -> Seq<u8> {
    seq![45u8, 45u8, 45u8, 45u8, 45u8, 66u8, 69u8, 71u8, 73u8, 78u8]
}

/// Whether some bytes open with a PEM block marker.
pub open spec fn spec_is_pem(input: Seq<u8>) -> bool {
    input.len() >= 10 && input.take(10) == pem_marker()
}

/// Whether some bytes open with a PEM block marker.
pub fn is_pem(input: &[u8]) -> (res: bool)
    ensures
        res == spec_is_pem(input@),
{
    if input.len() < 10 {
        return false;
    }
    let matched = input[0] == 45u8 && input[1] == 45u8 && input[2] == 45u8 && input[3] == 45u8 && input[4] == 45u8
        && input[5] == 66u8 && input[6] == 69u8 && input[7] == 71u8 && input[8] == 73u8 && input[9] == 78u8;
    if matched {
        assert(input@.take(10) =~= pem_marker());
    } else {
        assert(input@.take(10) != pem_marker()) by {
            if input@.take(10) == pem_marker() {
                assert(input@.take(10)[0] == input@[0]);
            }
        }
    }
    matched
}

/// The DER certificates that a certificate input holds: every certificate
/// of a PEM chain, or the input itself when it is one DER certificate.
pub open spec fn spec_certificate_der_values(input: Seq<u8>) -> Result<Seq<Seq<u8>>, Seq<char>> {
    if spec_is_pem(input) {
        match crate::certs::spec_pem_chain(input) {
            crate::certs::PemChainView::Certificates(ders) => Ok(ders),
            crate::certs::PemChainView::Invalid(e) => Err("invalid PEM certificate: "@ + e),
            crate::certs::PemChainView::Unencodable(e) => Err("failed to re-encode PEM certificate: "@ + e),
        }
    } else {
        match spec_x509_der_error(input) {
            Some(e) => Err("invalid DER certificate: "@ + e),
            None => Ok(seq![input]),
        }
    }
}

/// The DER certificates that a certificate input holds.
pub fn certificate_der_values(input: &[u8]) -> (res: Result<Vec<Vec<u8>>, String>)
    ensures
        match res {
            Ok(ders) => spec_certificate_der_values(input@) == Ok::<Seq<Seq<u8>>, Seq<char>>(crate::certs::bytes_view(ders@)),
            Err(e) => spec_certificate_der_values(input@) == Err::<Seq<Seq<u8>>, Seq<char>>(e@),
        },
{
    if is_pem(input) {
        match crate::certs::x509_pem_chain(input) {
            crate::certs::PemChain::Certificates(ders) => Ok(ders),
            crate::certs::PemChain::Invalid(e) => Err(crate::text::concat2("invalid PEM certificate: ", e.as_str())),
            crate::certs::PemChain::Unencodable(e) => Err(
                crate::text::concat2("failed to re-encode PEM certificate: ", e.as_str()),
            ),
        }
    } else {
        match x509_der_error(input) {
            Some(e) => Err(crate::text::concat2("invalid DER certificate: ", e.as_str())),
            None => {
                let mut ders: Vec<Vec<u8>> = Vec::new();
                ders.push(vstd::slice::slice_to_vec(input));
                assert(crate::certs::bytes_view(ders@) =~= seq![input@]);
                Ok(ders)
            },
        }
    }
}

/// The certificates that a list of inputs yields, in order, inputs that
/// cannot be read skipped.
pub open spec fn spec_loaded_certificates(inputs: Seq<Seq<u8>>) -> Seq<Seq<u8>>
    decreases inputs.len(),
{
    if inputs.len() == 0 {
        Seq::empty()
    } else {
        spec_loaded_certificates(inputs.drop_last()) + match spec_certificate_der_values(inputs.last()) {
            Ok(ders) => ders,
            Err(_) => Seq::empty(),
        }
    }
}

/// The findings about inputs that cannot be read, in order.
pub open spec fn spec_load_findings(inputs: Seq<Seq<u8>>, label: Seq<char>) -> Seq<crate::verify::SignatureFindingView>
    decreases inputs.len(),
{
    if inputs.len() == 0 {
        Seq::empty()
    } else {
        spec_load_findings(inputs.drop_last(), label) + match spec_certificate_der_values(inputs.last()) {
            Ok(_) => Seq::empty(),
            Err(e) => seq![
                crate::verify::SignatureFindingView {
                    kind: crate::verify::SignatureFindingKind::TrustError,
                    signature_id: None,
                    message: "failed to load "@ + label + ": "@ + e,
                },
            ],
        }
    }
}

/// Reads the certificates of a list of inputs; records a trust error for
/// each input that cannot be read.
pub fn load_certificate_inputs(
    report: &mut crate::verify::SignatureReport,
    inputs: &[crate::verify::CertificateInput],
    label: &str,
) -> (res: Vec<Vec<u8>>)
    ensures
        crate::certs::bytes_view(res@) == spec_loaded_certificates(crate::verify::inputs_view(inputs@)),
        final(report)@ == (crate::verify::SignatureReportView {
            errors: old(report)@.errors + spec_load_findings(crate::verify::inputs_view(inputs@), label@),
            ..old(report)@
        }),
{
    let ghost start = report@;
    let ghost all = crate::verify::inputs_view(inputs@);
    let mut certificates: Vec<Vec<u8>> = Vec::new();
    let mut k: usize = 0;
    assert(crate::certs::bytes_view(certificates@) =~= spec_loaded_certificates(all.take(0)));
    assert(report@.errors =~= start.errors + spec_load_findings(all.take(0), label@));
    while k < inputs.len()
        invariant
            k <= inputs@.len(),
            all == crate::verify::inputs_view(inputs@),
            crate::certs::bytes_view(certificates@) == spec_loaded_certificates(all.take(k as int)),
            report@ == (crate::verify::SignatureReportView {
                errors: start.errors + spec_load_findings(all.take(k as int), label@),
                ..start
            }),
        decreases inputs@.len() - k,
    {
        proof {
            assert(all.take(k + 1).drop_last() =~= all.take(k as int));
            assert(all.take(k + 1).last() == inputs@[k as int].bytes@);
        }
        match certificate_der_values(inputs[k].bytes.as_slice()) {
            Ok(loaded) => {
                let ghost before = certificates@;
                let mut loaded = loaded;
                let ghost added = loaded@;
                certificates.append(&mut loaded);
                proof {
                    assert(crate::certs::bytes_view(certificates@) =~= crate::certs::bytes_view(before) + crate::certs::bytes_view(added));
                }
            },
            Err(error) => {
                let mut message = crate::text::concat3("failed to load ", label, ": ");
                message.append(error.as_str());
                report.error(crate::verify::SignatureFinding::new(crate::verify::SignatureFindingKind::TrustError, message));
            },
        }
        proof {
            assert(report@.errors =~= start.errors + spec_load_findings(all.take(k + 1), label@));
        }
        k = k + 1;
    }
    assert(all.take(k as int) =~= all);
    certificates
}

/// What a signer certificate report says of the certificate that some DER
/// bytes encode: nothing when they are not one; otherwise its fingerprint,
/// its text fields, its key algorithm (the name of the key Bergshamra loads,
/// or the public key's OID when it cannot load it), and its key usages.
pub open spec fn spec_signer_report(der: Seq<u8>, report: Option<crate::verify::SignerCertificateReportView>) -> bool {
    match crate::certs::spec_x509_names(der) {
        None => report is None,
        Some(names) => match report {
            Some(r) => {
                &&& r.sha256_fingerprint == crate::certs::spec_fingerprint(der)
                &&& r.subject == names.subject
                &&& r.issuer == names.issuer
                &&& r.serial_number == names.serial_number
                &&& r.not_before == names.not_before
                &&& r.not_after == names.not_after
                &&& crate::certs::spec_key_load_error(der) is Some ==> r.key_algorithm == names.public_key_oid
                &&& crate::certs::spec_key_load_error(der) is None ==> r.key_algorithm == crate::certs::spec_key_algorithm(
                    der,
                )
                &&& r.key_usage == crate::certs::spec_key_usage(der)
                &&& r.extended_key_usage == crate::certs::spec_extended_key_usage(der)
            },
            None => false,
        },
    }
}

/// The optional view of a signer certificate report.
pub open spec fn signer_view(report: Option<crate::verify::SignerCertificateReport>) -> Option<crate::verify::SignerCertificateReportView> {
    match report {
        Some(r) => Some(r@),
        None => None,
    }
}

/// The name of the algorithm of a certificate's key, when Bergshamra can
/// load the key.
pub fn certificate_key_algorithm(der: &[u8]) -> (res: Option<String>)
    ensures
        res is Some <==> crate::certs::spec_key_load_error(der@) is None,
        res matches Some(name) ==> name@ == crate::certs::spec_key_algorithm(der@),
{
    match crate::certs::load_x509_key(der) {
        Ok(key) => Some(crate::certs::key_algorithm_name(&key)),
        Err(_) => None,
    }
}

/// Describes the certificate that some DER bytes encode.
pub fn signer_certificate_report(der: &[u8]) -> (res: Option<crate::verify::SignerCertificateReport>)
    ensures
        spec_signer_report(der@, signer_view(res)),
{
    let names = match crate::certs::x509_names(der) {
        Some(names) => names,
        None => return None,
    };
    let key_algorithm = match certificate_key_algorithm(der) {
        Some(algorithm) => algorithm,
        None => names.public_key_oid.clone(),
    };
    Some(crate::verify::SignerCertificateReport {
        sha256_fingerprint: crate::certs::sha256_fingerprint(der),
        subject: names.subject,
        issuer: names.issuer,
        serial_number: names.serial_number,
        not_before: names.not_before,
        not_after: names.not_after,
        key_algorithm,
        key_usage: crate::certs::key_usage(der),
        extended_key_usage: crate::certs::extended_key_usage(der),
    })
}

// ---------------------------------------------------------------------------
// The text handed to the verifier
// ---------------------------------------------------------------------------

/// The first `ds:Signature` element of a document, in document order.
pub open spec fn spec_first_signature(nodes: Seq<XmlNodeView>) -> Option<usize> {
    first_of(spec_ids(nodes.len()).filter(|k: usize| spec_is_ds(nodes[k as int], "Signature"@)))
}

/// The first `ds:Signature` element of a document.
pub fn first_signature(tree: &XmlTree) -> (res: Option<usize>)
    ensures
        res == spec_first_signature(tree@),
{
    let ghost nodes = tree@;
    let ghost ids = spec_ids(nodes.len());
    let ghost pred = |k: usize| spec_is_ds(nodes[k as int], "Signature"@);
    let mut k: usize = 0;
    proof {
        lemma_filter_empty(ids.take(0), pred);
    }
    while k < tree.len()
        invariant
            k <= nodes.len(),
            nodes == tree@,
            ids == spec_ids(nodes.len()),
            pred == (|k: usize| spec_is_ds(nodes[k as int], "Signature"@)),
            ids.take(k as int).filter(pred).len() == 0,
        decreases nodes.len() - k,
    {
        proof {
            lemma_filter_take_succ(ids, k as int, pred);
        }
        if crate::xml::is_ds(tree.node(k), "Signature") {
            proof {
                lemma_first_match(ids, k as int, pred);
            }
            return Some(k);
        }
        k = k + 1;
    }
    proof {
        lemma_take_full(ids);
    }
    None
}

/// The first position at or after `from` that holds a byte.
pub open spec fn spec_find_byte(bytes: Seq<u8>, from: nat, b: u8) -> Option<nat>
    decreases bytes.len() - from,
{
    if from >= bytes.len() {
        None
    } else if bytes[from as int] == b {
        Some(from)
    } else {
        spec_find_byte(bytes, from + 1, b)
    }
}

/// The first position at or after `from` that holds a byte.
pub fn find_byte(bytes: &[u8], from: usize, b: u8) -> (res: Option<usize>)
    ensures
        match res {
            Some(p) => spec_find_byte(bytes@, from as nat, b) == Some(p as nat) && p < bytes@.len(),
            None => spec_find_byte(bytes@, from as nat, b) is None,
        },
{
    let mut p = from;
    while p < bytes.len()
        invariant
            from <= p,
            spec_find_byte(bytes@, from as nat, b) == spec_find_byte(bytes@, p as nat, b),
        decreases bytes@.len() - p,
    {
        if bytes[p] == b {
            return Some(p);
        }
        p = p + 1;
    }
    None
}

/// The bytes of a document with a signature moved to just after the root
/// element's start tag (the verifier checks the first signature of what it
/// is handed); nothing when the positions do not fit.
pub open spec fn spec_moved_signature(bytes: Seq<u8>, root_start: nat, s: nat, e: nat) -> Option<Seq<u8>> {
    if !(s <= e <= bytes.len() && root_start <= bytes.len()) {
        None
    } else {
        match spec_find_byte(bytes, root_start, 62u8) {
            None => None,
            Some(p) => {
                let insert = p + 1;
                if s < insert && insert < e - s {
                    None
                } else {
                    let removed = bytes.take(s as int) + bytes.skip(e as int);
                    let at = if s < insert {
                        insert - (e - s)
                    } else {
                        insert as int
                    };
                    Some(removed.take(at) + bytes.subrange(s as int, e as int) + removed.skip(at))
                }
            },
        }
    }
}

/// The text that the verifier is handed for a signature: the document
/// itself when it is the first signature; otherwise the document with the
/// signature moved to just after the root element's start tag. A document
/// without a root element, or whose positions do not fit, is refused as an
/// invalid root; moved bytes that are not UTF-8 are refused as such.
pub open spec fn spec_signature_xml(xml: Seq<char>, nodes: Seq<XmlNodeView>, signature: usize) -> Result<Seq<char>, crate::error::ErrorView> {
    if spec_first_signature(nodes) == Some(signature) {
        Ok(xml)
    } else {
        match crate::parsed::spec_root_element(nodes) {
            None => Err(crate::error::ErrorView::InvalidRoot),
            Some(root) => match spec_moved_signature(
                vstd::utf8::encode_utf8(xml),
                nodes[root as int].range_start as nat,
                nodes[signature as int].range_start as nat,
                nodes[signature as int].range_end as nat,
            ) {
                None => Err(crate::error::ErrorView::InvalidRoot),
                Some(moved) => if vstd::utf8::valid_utf8(moved) {
                    Ok(vstd::utf8::decode_utf8(moved))
                } else {
                    Err(crate::error::ErrorView::Utf8 { message: crate::codec::spec_utf8_error_message(moved) })
                },
            },
        }
    }
}

/// Appends the bytes `from..to` of a slice.
fn extend_from(out: &mut Vec<u8>, bytes: &[u8], from: usize, to: usize)
    requires
        from <= to <= bytes@.len(),
    ensures
        final(out)@ == old(out)@ + bytes@.subrange(from as int, to as int),
{
    let mut k = from;
    while k < to
        invariant
            from <= k <= to <= bytes@.len(),
            out@ == old(out)@ + bytes@.subrange(from as int, k as int),
        decreases to - k,
    {
        out.push(bytes[k]);
        assert(out@ =~= old(out)@ + bytes@.subrange(from as int, k + 1));
        k = k + 1;
    }
}

/// The text that the verifier is handed for a signature.
pub fn signature_verification_xml(xml: &str, tree: &XmlTree, signature: usize) -> (res: Result<String, crate::error::Error>)
    requires
        tree.wf(),
        signature < tree@.len(),
    ensures
        match res {
            Ok(text) => spec_signature_xml(xml@, tree@, signature) == Ok::<Seq<char>, crate::error::ErrorView>(text@),
            Err(e) => spec_signature_xml(xml@, tree@, signature) == Err::<Seq<char>, crate::error::ErrorView>(e@),
        },
{
    if first_signature(tree) == Some(signature) {
        return Ok(xml.to_owned());
    }
    let root = match crate::parsed::root_element(tree) {
        Some(root) => root,
        None => return Err(crate::error::Error::InvalidRoot),
    };
    let bytes = xml.as_bytes();
    let root_start = tree.node(root).range_start;
    let s = tree.node(signature).range_start;
    let e = tree.node(signature).range_end;
    if !(s <= e && e <= bytes.len() && root_start <= bytes.len()) {
        return Err(crate::error::Error::InvalidRoot);
    }
    let p = match find_byte(bytes, root_start, 62u8) {
        Some(p) => p,
        None => return Err(crate::error::Error::InvalidRoot),
    };
    let insert = p + 1;
    if s < insert && insert < e - s {
        return Err(crate::error::Error::InvalidRoot);
    }
    let ghost removed = bytes@.take(s as int) + bytes@.skip(e as int);
    let at = if s < insert {
        insert - (e - s)
    } else {
        insert
    };
    let mut moved: Vec<u8> = Vec::new();
    assert(moved@ =~= Seq::<u8>::empty());
    if at <= s {
        extend_from(&mut moved, bytes, 0, at);
        extend_from(&mut moved, bytes, s, e);
        extend_from(&mut moved, bytes, at, s);
        extend_from(&mut moved, bytes, e, bytes.len());
        assert(moved@ =~= removed.take(at as int) + bytes@.subrange(s as int, e as int) + removed.skip(at as int));
    } else {
        extend_from(&mut moved, bytes, 0, s);
        extend_from(&mut moved, bytes, e, at + (e - s));
        extend_from(&mut moved, bytes, s, e);
        extend_from(&mut moved, bytes, at + (e - s), bytes.len());
        assert(moved@ =~= removed.take(at as int) + bytes@.subrange(s as int, e as int) + removed.skip(at as int));
    }
    match crate::codec::utf8_str(moved.as_slice()) {
        Ok(text) => Ok(text.to_owned()),
        Err(message) => Err(crate::error::Error::Utf8 { message }),
    }
}

// ---------------------------------------------------------------------------
// XMLDSIG verification
// ---------------------------------------------------------------------------

/// A target's verification outcome as plain values.
pub enum TargetOutcomeView {
    Valid { references: Seq<Seq<char>>, key_info: crate::verify::SignatureKeyInfoView },
    Failed { kind: crate::verify::SignatureFindingKind, message: Seq<char> },
}

/// What verifying one target gave: the references and key of a valid
/// signature, or a finding.
pub enum TargetOutcome {
    Valid { references: Vec<crate::verify::SignatureReference>, key_info: crate::verify::SignatureKeyInfo },
    Failed { kind: crate::verify::SignatureFindingKind, message: String },
}

impl View for TargetOutcome {
    type V = TargetOutcomeView;

    open spec fn view(&self) -> TargetOutcomeView {
        match self {
            TargetOutcome::Valid { references, key_info } => TargetOutcomeView::Valid {
                references: crate::verify::references_view(references@),
                key_info: key_info@,
            },
            TargetOutcome::Failed { kind, message } => TargetOutcomeView::Failed { kind: *kind, message: message@ },
        }
    }
}

/// What an XMLDSIG verification outcome becomes: a valid signature keeps its
/// references and key; an invalid one or an error is an invalid-signature
/// finding.
pub open spec fn spec_target_outcome(outcome: crate::certs::DsigOutcomeView) -> TargetOutcomeView {
    match outcome {
        crate::certs::DsigOutcomeView::Valid { references, algorithm, key_name, chain_len } => TargetOutcomeView::Valid {
            references,
            key_info: crate::verify::SignatureKeyInfoView {
                algorithm,
                key_name,
                x509_certificate_count: chain_len as usize,
            },
        },
        crate::certs::DsigOutcomeView::Invalid { reason } => TargetOutcomeView::Failed {
            kind: crate::verify::SignatureFindingKind::InvalidSignature,
            message: "Bergshamra XMLDSIG verification failed: "@ + reason,
        },
        crate::certs::DsigOutcomeView::Failed { message } => TargetOutcomeView::Failed {
            kind: crate::verify::SignatureFindingKind::InvalidSignature,
            message: "Bergshamra XMLDSIG verification failed: "@ + message,
        },
    }
}

/// What an XMLDSIG verification outcome becomes.
pub fn target_outcome(outcome: crate::certs::DsigOutcome) -> (res: TargetOutcome)
    ensures
        res@ == spec_target_outcome(outcome@),
{
    match outcome {
        crate::certs::DsigOutcome::Valid { references, algorithm, key_name, x509_chain } => {
            let mut uris: Vec<crate::verify::SignatureReference> = Vec::new();
            let mut k: usize = 0;
            while k < references.len()
                invariant
                    k <= references@.len(),
                    uris@.len() == k,
                    forall|j: int| 0 <= j < k ==> (#[trigger] uris@[j]).uri@ == references@[j]@,
                decreases references@.len() - k,
            {
                uris.push(crate::verify::SignatureReference { uri: references[k].clone() });
                k = k + 1;
            }
            assert(crate::verify::references_view(uris@) =~= crate::verify::strings_view(references@));
            TargetOutcome::Valid {
                references: uris,
                key_info: crate::verify::SignatureKeyInfo {
                    algorithm,
                    key_name,
                    x509_certificate_count: x509_chain.len(),
                },
            }
        },
        crate::certs::DsigOutcome::Invalid { reason } => TargetOutcome::Failed {
            kind: crate::verify::SignatureFindingKind::InvalidSignature,
            message: crate::text::concat2("Bergshamra XMLDSIG verification failed: ", reason.as_str()),
        },
        crate::certs::DsigOutcome::Failed { message } => TargetOutcome::Failed {
            kind: crate::verify::SignatureFindingKind::InvalidSignature,
            message: crate::text::concat2("Bergshamra XMLDSIG verification failed: ", message.as_str()),
        },
    }
}

/// The error of the first pinned certificate whose key cannot be loaded.
pub open spec fn spec_first_key_load_error(pinned: Seq<Seq<u8>>) -> Option<Seq<char>>
    decreases pinned.len(),
{
    if pinned.len() == 0 {
        None
    } else {
        match spec_first_key_load_error(pinned.drop_last()) {
            Some(m) => Some(m),
            None => crate::certs::spec_key_load_error(pinned.last()),
        }
    }
}

/// The keys loaded from pinned certificates, each by the chain it carries:
/// the certificate itself.
pub open spec fn pinned_key_chains(pinned: Seq<Seq<u8>>) -> Seq<Seq<Seq<u8>>> {
    pinned.map_values(|der: Seq<u8>| seq![der])
}

/// Whether a verification context holds exactly the pinned certificates'
/// keys, the anchors as trusted certificates, the untrusted certificates as
/// untrusted, and the given X.509 setting.
pub open spec fn context_holds(
    context: bergshamra_dsig::DsigContext,
    pinned: Seq<Seq<u8>>,
    anchors: Seq<Seq<u8>>,
    untrusted: Seq<Seq<u8>>,
    x509: bool,
) -> bool {
    &&& crate::certs::dsig_context_keys(context) == pinned_key_chains(pinned)
    &&& crate::certs::dsig_context_trusted(context) == anchors
    &&& crate::certs::dsig_context_untrusted(context) == untrusted
    &&& crate::certs::dsig_context_x509(context) == x509
}

/// Whether XMLDSIG verification can report an outcome for a text under a
/// context built from pinned certificates, anchors, untrusted certificates
/// and an X.509 setting.
pub open spec fn verifier_possible(
    pinned: Seq<Seq<u8>>,
    anchors: Seq<Seq<u8>>,
    untrusted: Seq<Seq<u8>>,
    x509: bool,
    xml: Seq<char>,
    outcome: crate::certs::DsigOutcomeView,
) -> bool {
    crate::certs::dsig_outcome_possible(pinned_key_chains(pinned), anchors, untrusted, x509, xml, outcome)
}

/// A verification context: the pinned certificates' keys, the trusted
/// anchors, the untrusted certificates, and X.509 validation when asked for
/// and some anchor is trusted. Fails with the first pinned certificate
/// whose key cannot be loaded.
fn dsig_context(
    pinned: &[Vec<u8>],
    anchors: &[Vec<u8>],
    untrusted: &[Vec<u8>],
    validate_x509: bool,
) -> (res: Result<bergshamra_dsig::DsigContext, String>)
    ensures
        match res {
            Ok(context) => spec_first_key_load_error(crate::certs::bytes_view(pinned@)) is None && context_holds(
                context,
                crate::certs::bytes_view(pinned@),
                crate::certs::bytes_view(anchors@),
                crate::certs::bytes_view(untrusted@),
                validate_x509 && anchors@.len() > 0,
            ),
            Err(m) => spec_first_key_load_error(crate::certs::bytes_view(pinned@)) == Some(m@),
        },
{
    let ghost all = crate::certs::bytes_view(pinned@);
    let ghost trusted = crate::certs::bytes_view(anchors@);
    let ghost others = crate::certs::bytes_view(untrusted@);
    let mut manager = crate::certs::keys_manager_new();
    let mut k: usize = 0;
    proof {
        assert(pinned_key_chains(all.take(0)) =~= Seq::<Seq<Seq<u8>>>::empty());
    }
    while k < pinned.len()
        invariant
            k <= pinned@.len(),
            all == crate::certs::bytes_view(pinned@),
            spec_first_key_load_error(all.take(k as int)) is None,
            crate::certs::keys_manager_keys(manager) == pinned_key_chains(all.take(k as int)),
            crate::certs::keys_manager_trusted(manager) == Seq::<Seq<u8>>::empty(),
            crate::certs::keys_manager_untrusted(manager) == Seq::<Seq<u8>>::empty(),
        decreases pinned@.len() - k,
    {
        proof {
            assert(all.take(k + 1).drop_last() =~= all.take(k as int));
            assert(all.take(k + 1).last() == pinned@[k as int]@);
        }
        match crate::certs::load_x509_key(pinned[k].as_slice()) {
            Ok(key) => {
                crate::certs::keys_manager_add_key(&mut manager, key);
                assert(pinned_key_chains(all.take(k + 1)) =~= pinned_key_chains(all.take(k as int)).push(
                    seq![pinned@[k as int]@],
                ));
            },
            Err(message) => {
                proof {
                    lemma_first_error_prefix(all, k + 1);
                }
                return Err(message);
            },
        }
        k = k + 1;
    }
    assert(all.take(k as int) =~= all);
    let mut k: usize = 0;
    while k < anchors.len()
        invariant
            k <= anchors@.len(),
            trusted == crate::certs::bytes_view(anchors@),
            crate::certs::keys_manager_keys(manager) == pinned_key_chains(all),
            crate::certs::keys_manager_trusted(manager) == trusted.take(k as int),
            crate::certs::keys_manager_untrusted(manager) == Seq::<Seq<u8>>::empty(),
        decreases anchors@.len() - k,
    {
        let der = anchors[k].clone();
        assert(der@ =~= anchors@[k as int]@);
        crate::certs::keys_manager_add_trusted_cert(&mut manager, der);
        assert(trusted.take(k + 1) =~= trusted.take(k as int).push(anchors@[k as int]@));
        k = k + 1;
    }
    assert(trusted.take(k as int) =~= trusted);
    let mut k: usize = 0;
    while k < untrusted.len()
        invariant
            k <= untrusted@.len(),
            others == crate::certs::bytes_view(untrusted@),
            crate::certs::keys_manager_keys(manager) == pinned_key_chains(all),
            crate::certs::keys_manager_trusted(manager) == trusted,
            crate::certs::keys_manager_untrusted(manager) == others.take(k as int),
        decreases untrusted@.len() - k,
    {
        let der = untrusted[k].clone();
        assert(der@ =~= untrusted@[k as int]@);
        crate::certs::keys_manager_add_untrusted_cert(&mut manager, der);
        assert(others.take(k + 1) =~= others.take(k as int).push(untrusted@[k as int]@));
        k = k + 1;
    }
    assert(others.take(k as int) =~= others);
    let context = crate::certs::dsig_context_new(manager);
    Ok(crate::certs::dsig_context_with_x509(context, validate_x509 && anchors.len() > 0))
}

/// The first error of a prefix that has one is the first error of the whole.
proof fn lemma_first_error_prefix(all: Seq<Seq<u8>>, k: int)
    requires
        0 <= k <= all.len(),
        spec_first_key_load_error(all.take(k)) is Some,
    ensures
        spec_first_key_load_error(all) == spec_first_key_load_error(all.take(k)),
    decreases all.len() - k,
{
    if k < all.len() {
        assert(all.take(k + 1).drop_last() =~= all.take(k));
        lemma_first_error_prefix(all, k + 1);
    } else {
        assert(all.take(k) =~= all);
    }
}

/// Verifies a target's text with Bergshamra against the pinned keys, the
/// trusted anchors and the signature's own certificates. A pinned
/// certificate whose key cannot be loaded is a key error; otherwise the
/// outcome is whatever the verifier reported, converted.
pub fn verify_with_bergshamra(
    target_xml: &str,
    pinned: &[Vec<u8>],
    anchors: &[Vec<u8>],
    embedded: &[Vec<u8>],
) -> (res: TargetOutcome)
    ensures
        match spec_first_key_load_error(crate::certs::bytes_view(pinned@)) {
            Some(m) => res@ == (TargetOutcomeView::Failed {
                kind: crate::verify::SignatureFindingKind::KeyError,
                message: "Bergshamra key loading failed: "@ + m,
            }),
            None => exists|d: crate::certs::DsigOutcomeView|
                verifier_possible(
                    crate::certs::bytes_view(pinned@),
                    crate::certs::bytes_view(anchors@),
                    crate::certs::bytes_view(embedded@),
                    false,
                    target_xml@,
                    d,
                ) && #[trigger] spec_target_outcome(d) == res@,
        },
{
    let context = match dsig_context(pinned, anchors, embedded, false) {
        Ok(context) => context,
        Err(error) => {
            return TargetOutcome::Failed {
                kind: crate::verify::SignatureFindingKind::KeyError,
                message: crate::text::concat2("Bergshamra key loading failed: ", error.as_str()),
            };
        },
    };
    let outcome = crate::certs::dsig_verify(&context, target_xml);
    let ghost d = outcome@;
    let res = target_outcome(outcome);
    assert(spec_target_outcome(d) == res@);
    res
}

/// What a trusted-anchor validation outcome becomes: a valid signature
/// passes; otherwise the reason or error fails it.
pub open spec fn spec_anchor_outcome(outcome: crate::certs::DsigOutcomeView) -> Result<(), Seq<char>> {
    match outcome {
        crate::certs::DsigOutcomeView::Valid { .. } => Ok(()),
        crate::certs::DsigOutcomeView::Invalid { reason } => Err(reason),
        crate::certs::DsigOutcomeView::Failed { message } => Err(message),
    }
}

/// The view of an anchor validation result.
pub open spec fn unit_result_view(r: Result<(), String>) -> Result<(), Seq<char>> {
    match r {
        Ok(()) => Ok(()),
        Err(m) => Err(m@),
    }
}

/// Validates a target's text against the trusted anchors, with X.509
/// validation on. A pinned certificate whose key cannot be loaded fails it
/// with that error; otherwise the outcome is what the verifier reported.
pub fn validate_trusted_anchor(
    target_xml: &str,
    pinned: &[Vec<u8>],
    anchors: &[Vec<u8>],
    embedded: &[Vec<u8>],
) -> (res: Result<(), String>)
    ensures
        match spec_first_key_load_error(crate::certs::bytes_view(pinned@)) {
            Some(m) => unit_result_view(res) == Err::<(), Seq<char>>(m),
            None => exists|d: crate::certs::DsigOutcomeView|
                verifier_possible(
                    crate::certs::bytes_view(pinned@),
                    crate::certs::bytes_view(anchors@),
                    crate::certs::bytes_view(embedded@),
                    anchors@.len() > 0,
                    target_xml@,
                    d,
                ) && #[trigger] spec_anchor_outcome(d) == unit_result_view(res),
        },
{
    let context = match dsig_context(pinned, anchors, embedded, true) {
        Ok(context) => context,
        Err(error) => return Err(error),
    };
    let outcome = crate::certs::dsig_verify(&context, target_xml);
    let ghost d = outcome@;
    let res = match outcome {
        crate::certs::DsigOutcome::Valid { .. } => Ok(()),
        crate::certs::DsigOutcome::Invalid { reason } => Err(reason),
        crate::certs::DsigOutcome::Failed { message } => Err(message),
    };
    assert(spec_anchor_outcome(d) == unit_result_view(res));
    res
}

// ---------------------------------------------------------------------------
// Recording what a signature's verification found
// ---------------------------------------------------------------------------

/// The result of a signature that did not verify.
pub open spec fn failed_result(
    id: Option<Seq<char>>,
    scope: SignatureScope,
    signer: Option<crate::verify::SignerCertificateReportView>,
    xades: crate::verify::XadesSigningCertificateStatus,
    evidence: SignatureEvidence,
) -> crate::verify::SignatureResultView {
    crate::verify::SignatureResultView {
        id,
        scope,
        references: Seq::empty(),
        key_info: None,
        signer_certificate: signer,
        xades_signing_certificate: xades,
        evidence,
        trust: crate::verify::ValidationLayerStatus::Failed,
        signature_value_valid: false,
    }
}

/// The result of a signature that did not verify.
pub fn failed_signature_result(
    id: Option<String>,
    scope: SignatureScope,
    signer: Option<crate::verify::SignerCertificateReport>,
    xades: crate::verify::XadesSigningCertificateStatus,
    evidence: SignatureEvidence,
) -> (res: crate::verify::SignatureResult)
    ensures
        res@ == failed_result(opt_view(id), scope, signer_view(signer), xades, evidence),
{
    let res = crate::verify::SignatureResult {
        id,
        scope,
        references: Vec::new(),
        key_info: None,
        signer_certificate: signer,
        xades_signing_certificate: xades,
        evidence,
        trust: crate::verify::ValidationLayerStatus::Failed,
        signature_value_valid: false,
    };
    assert(res@.references =~= Seq::<Seq<char>>::empty());
    res
}

/// What a signature's facts are, apart from its verification: its `Id`,
/// scope, signer certificate, XAdES digest status and evidence.
pub struct SignatureFacts {
    pub id: Option<String>,
    pub scope: SignatureScope,
    pub signer: Option<crate::verify::SignerCertificateReport>,
    pub xades: crate::verify::XadesSigningCertificateStatus,
    pub evidence: SignatureEvidence,
}

/// A verified signature's result before trust is decided.
pub open spec fn verified_result(facts: SignatureFacts, references: Seq<Seq<char>>, key_info: crate::verify::SignatureKeyInfoView) -> crate::verify::SignatureResultView {
    crate::verify::SignatureResultView {
        id: opt_view(facts.id),
        scope: facts.scope,
        references,
        key_info: Some(key_info),
        signer_certificate: signer_view(facts.signer),
        xades_signing_certificate: facts.xades,
        evidence: facts.evidence,
        trust: crate::verify::ValidationLayerStatus::NotChecked,
        signature_value_valid: true,
    }
}

/// The report after a signature's outcome is recorded. A failed outcome
/// adds its finding and a failed result. A valid one adds a finding for each
/// required reference it does not cover, then the trust findings, and its
/// result with the trust decided.
pub open spec fn spec_record_outcome(
    report: crate::verify::SignatureReportView,
    facts: SignatureFacts,
    required: Seq<Seq<char>>,
    outcome: TargetOutcomeView,
    pinned: bool,
    fingerprints: Seq<Seq<char>>,
    anchor: Option<Result<(), Seq<char>>>,
) -> crate::verify::SignatureReportView {
    match outcome {
        TargetOutcomeView::Failed { kind, message } => crate::verify::SignatureReportView {
            errors: report.errors.push(
                crate::verify::SignatureFindingView { kind, signature_id: opt_view(facts.id), message },
            ),
            signatures: report.signatures.push(
                failed_result(opt_view(facts.id), facts.scope, signer_view(facts.signer), facts.xades, facts.evidence),
            ),
            ..report
        },
        TargetOutcomeView::Valid { references, key_info } => {
            let result = verified_result(facts, references, key_info);
            let policy = spec_policy_findings(required, references, result.id, result.scope);
            let trust = if !pinned && anchor is None {
                Seq::empty()
            } else {
                spec_trust_findings(pinned, fingerprints, anchor, result)
            };
            crate::verify::SignatureReportView {
                errors: report.errors + policy + trust,
                signatures: report.signatures.push(
                    crate::verify::SignatureResultView {
                        trust: spec_trust_status(pinned, fingerprints, anchor, result),
                        ..result
                    },
                ),
                ..report
            }
        },
    }
}

/// Records a signature's outcome: `required` are the references it must
/// cover, `pinned` whether some certificate is pinned, `fingerprints` the
/// pinned certificates' fingerprints, and `anchor` what validation against
/// the trusted anchors reported, when some are trusted.
pub fn record_outcome(
    report: &mut crate::verify::SignatureReport,
    facts: SignatureFacts,
    required: &Vec<String>,
    outcome: TargetOutcome,
    pinned: bool,
    fingerprints: &[String],
    anchor: &Option<Result<(), String>>,
)
    ensures
        final(report)@ == spec_record_outcome(
            old(report)@,
            facts,
            crate::verify::strings_view(required@),
            outcome@,
            pinned,
            crate::verify::strings_view(fingerprints@),
            anchor_view(*anchor),
        ),
{
    let ghost start = report@;
    let ghost f = facts;
    match outcome {
        TargetOutcome::Failed { kind, message } => {
            report.error(crate::verify::SignatureFinding::with_signature_id(
                kind,
                crate::text::clone_opt_string(&facts.id),
                message,
            ));
            report.push_signature(
                failed_signature_result(facts.id, facts.scope, facts.signer, facts.xades, facts.evidence),
            );
        },
        TargetOutcome::Valid { references, key_info } => {
            let ghost refs = crate::verify::references_view(references@);
            let ghost info = key_info@;
            let mut signature = crate::verify::SignatureResult {
                id: facts.id,
                scope: facts.scope,
                references,
                key_info: Some(key_info),
                signer_certificate: facts.signer,
                xades_signing_certificate: facts.xades,
                evidence: facts.evidence,
                trust: crate::verify::ValidationLayerStatus::NotChecked,
                signature_value_valid: true,
            };
            assert(signature@ == verified_result(f, refs, info));
            enforce_signature_policy(report, required, &signature);
            apply_signature_trust(pinned, fingerprints, anchor, &mut signature, report);
            report.push_signature(signature);
            assert(report@.errors =~= spec_record_outcome(
                start,
                f,
                crate::verify::strings_view(required@),
                TargetOutcomeView::Valid { references: refs, key_info: info },
                pinned,
                crate::verify::strings_view(fingerprints@),
                anchor_view(*anchor),
            ).errors);
        },
    }
}

/// Whether a list holds anything.
pub open spec fn given<A>(s: Seq<A>) -> bool {
    s.len() > 0
}

/// What is read off a signature before its verification: its `Id`, the
/// target's scope, its evidence, and, from the certificate in its key
/// information, the signer report and the XAdES digest status.
pub open spec fn facts_hold(nodes: Seq<XmlNodeView>, target: SignatureTarget, facts: SignatureFacts) -> bool {
    &&& opt_view(facts.id) == crate::xml::spec_attribute(nodes[target.node as int], "Id"@)
    &&& facts.scope == target.scope
    &&& facts.evidence == spec_evidence(nodes, target.node)
    &&& match spec_key_info_certificate(nodes, target.node) {
        Some(der) => facts.xades == spec_xades_status(nodes, target.node, der) && spec_signer_report(
            der,
            signer_view(facts.signer),
        ),
        None => facts.xades == crate::verify::XadesSigningCertificateStatus::NotPresent && facts.signer is None,
    }
}

/// What verifying a target can have given: when its text cannot be made, a
/// parse finding; when a pinned key cannot be loaded, that key error;
/// otherwise some outcome of the verifier, and, for a valid signature with
/// trusted anchors, some outcome of validating against them.
pub open spec fn outcome_possible(
    xml: Seq<char>,
    nodes: Seq<XmlNodeView>,
    target: SignatureTarget,
    pinned: Seq<Seq<u8>>,
    anchors: Seq<Seq<u8>>,
    outcome: TargetOutcomeView,
    anchor: Option<Result<(), Seq<char>>>,
) -> bool {
    let embedded = spec_embedded_certificates(nodes, target.node);
    match spec_signature_xml(xml, nodes, target.node) {
        Err(e) => outcome == (TargetOutcomeView::Failed {
            kind: crate::verify::SignatureFindingKind::ParseError,
            message: "ES3 signature XML target selection failed: "@ + e.message(),
        }) && anchor is None,
        Ok(text) => {
            &&& match spec_first_key_load_error(pinned) {
                Some(m) => outcome == (TargetOutcomeView::Failed {
                    kind: crate::verify::SignatureFindingKind::KeyError,
                    message: "Bergshamra key loading failed: "@ + m,
                }),
                None => exists|d: crate::certs::DsigOutcomeView|
                    verifier_possible(pinned, anchors, embedded, false, text, d) && #[trigger] spec_target_outcome(d)
                        == outcome,
            }
            &&& (outcome is Valid && anchors.len() > 0) == anchor is Some
            &&& anchor matches Some(a) ==> match spec_first_key_load_error(pinned) {
                Some(m) => a == Err::<(), Seq<char>>(m),
                None => exists|d: crate::certs::DsigOutcomeView|
                    verifier_possible(pinned, anchors, embedded, true, text, d) && #[trigger] spec_anchor_outcome(d)
                        == a,
            }
        },
    }
}

/// Verifies one signature and records what it found: the signature's facts
/// are read off the tree, its text is made and handed to the verifier with
/// the pinned keys, the trusted anchors and its own certificates, and the
/// outcome is recorded under the reference policy and the trust decision.
pub fn verify_signature_target(
    xml: &str,
    tree: &XmlTree,
    root: Option<usize>,
    target: SignatureTarget,
    pinned: &[Vec<u8>],
    fingerprints: &[String],
    anchors: &[Vec<u8>],
    report: &mut crate::verify::SignatureReport,
)
    requires
        tree.wf(),
        target.node < tree@.len(),
        root matches Some(r) ==> r < tree@.len(),
    ensures
        exists|facts: SignatureFacts, outcome: TargetOutcomeView, anchor: Option<Result<(), Seq<char>>>|
            #![trigger spec_record_outcome(old(report)@, facts, spec_expected_references(tree@, root, target), outcome, given(pinned@), crate::verify::strings_view(fingerprints@), anchor)]
            facts_hold(tree@, target, facts) && outcome_possible(
                xml@,
                tree@,
                target,
                crate::certs::bytes_view(pinned@),
                crate::certs::bytes_view(anchors@),
                outcome,
                anchor,
            ) && final(report)@ == spec_record_outcome(
                old(report)@,
                facts,
                spec_expected_references(tree@, root, target),
                outcome,
                given(pinned@),
                crate::verify::strings_view(fingerprints@),
                anchor,
            ),
{
    let ghost start = report@;
    let id = tree.attribute(target.node, "Id");
    let der = key_info_certificate(tree, target.node);
    let (signer, xades) = match &der {
        Some(d) => (
            signer_certificate_report(d.as_slice()),
            xades_signing_certificate_status(tree, target.node, d.as_slice()),
        ),
        None => (None, crate::verify::XadesSigningCertificateStatus::NotPresent),
    };
    let evidence = signature_evidence(tree, target.node);
    let embedded = embedded_certificate_values(tree, target.node);
    let facts = SignatureFacts { id, scope: target.scope, signer, xades, evidence };
    let ghost f = facts;
    assert(facts_hold(tree@, target, f));
    let required = expected_reference_uris(tree, root, target);
    let (outcome, anchor) = match signature_verification_xml(xml, tree, target.node) {
        Err(error) => (
            TargetOutcome::Failed {
                kind: crate::verify::SignatureFindingKind::ParseError,
                message: crate::text::concat2("ES3 signature XML target selection failed: ", error.to_string().as_str()),
            },
            None,
        ),
        Ok(target_xml) => {
            let outcome = verify_with_bergshamra(target_xml.as_str(), pinned, anchors, embedded.as_slice());
            let valid = match &outcome {
                TargetOutcome::Valid { .. } => true,
                TargetOutcome::Failed { .. } => false,
            };
            let anchor = if valid && anchors.len() > 0 {
                Some(validate_trusted_anchor(target_xml.as_str(), pinned, anchors, embedded.as_slice()))
            } else {
                None
            };
            (outcome, anchor)
        },
    };
    let ghost o = outcome@;
    let ghost a = anchor_view(anchor);
    assert(outcome_possible(xml@, tree@, target, crate::certs::bytes_view(pinned@), crate::certs::bytes_view(anchors@), o, a));
    record_outcome(report, facts, &required, outcome, pinned.len() > 0, fingerprints, &anchor);
    assert(report@ == spec_record_outcome(
        start,
        f,
        spec_expected_references(tree@, root, target),
        o,
        given(pinned@),
        crate::verify::strings_view(fingerprints@),
        a,
    ));
}

/// What recording an outcome does to a report: one more result, with the
/// signature's `Id` and scope; errors only added; and a result whose value
/// did not verify has failed trust and its finding, under its `Id`, last.
proof fn lemma_record_shape(
    report: crate::verify::SignatureReportView,
    facts: SignatureFacts,
    required: Seq<Seq<char>>,
    outcome: TargetOutcomeView,
    pinned: bool,
    fingerprints: Seq<Seq<char>>,
    anchor: Option<Result<(), Seq<char>>>,
)
    ensures
        ({
            let r = spec_record_outcome(report, facts, required, outcome, pinned, fingerprints, anchor);
            &&& r.signature_count == report.signature_count
            &&& r.warnings == report.warnings
            &&& r.signatures.len() == report.signatures.len() + 1
            &&& r.signatures.drop_last() == report.signatures
            &&& r.signatures.last().id == opt_view(facts.id)
            &&& r.signatures.last().scope == facts.scope
            &&& r.errors.len() >= report.errors.len()
            &&& r.errors.take(report.errors.len() as int) == report.errors
            &&& !r.signatures.last().signature_value_valid ==> {
                &&& r.signatures.last().trust == crate::verify::ValidationLayerStatus::Failed
                &&& r.errors.len() == report.errors.len() + 1
                &&& r.errors.last().signature_id == opt_view(facts.id)
                &&& outcome matches TargetOutcomeView::Failed { kind, .. } && r.errors.last().kind == kind
            }
        }),
{
    let r = spec_record_outcome(report, facts, required, outcome, pinned, fingerprints, anchor);
    assert(r.signatures.drop_last() =~= report.signatures);
    match outcome {
        TargetOutcomeView::Failed { .. } => {
            assert(r.errors.take(report.errors.len() as int) =~= report.errors);
        },
        TargetOutcomeView::Valid { references, key_info } => {
            let result = verified_result(facts, references, key_info);
            let policy = spec_policy_findings(required, references, result.id, result.scope);
            let trust = if !pinned && anchor is None {
                Seq::empty()
            } else {
                spec_trust_findings(pinned, fingerprints, anchor, result)
            };
            assert(r.errors == report.errors + policy + trust);
            assert(r.errors.take(report.errors.len() as int) =~= report.errors);
        },
    }
}

/// The report of a dossier whose text cannot be parsed for signature
/// verification.
pub open spec fn parse_failure_report(e: crate::error::ErrorView) -> crate::verify::SignatureReportView {
    crate::verify::SignatureReportView {
        signature_count: 0,
        signatures: Seq::empty(),
        errors: seq![
            crate::verify::SignatureFindingView {
                kind: crate::verify::SignatureFindingKind::ParseError,
                signature_id: None,
                message: "ES3 signature XML parsing failed: "@ + e.message(),
            },
        ],
        warnings: Seq::empty(),
    }
}

/// The report of a dossier with more than one signature of its own.
pub open spec fn multiple_dossier_signatures_report(count: usize) -> crate::verify::SignatureReportView {
    crate::verify::SignatureReportView {
        signature_count: count,
        signatures: Seq::empty(),
        errors: seq![
            crate::verify::SignatureFindingView {
                kind: crate::verify::SignatureFindingKind::VerificationPolicyDenied,
                signature_id: None,
                message: "multiple ES3 dossier signatures are not supported"@,
            },
        ],
        warnings: Seq::empty(),
    }
}

/// The certificates read from the pinned inputs of some options.
pub open spec fn loaded_pins(options: crate::verify::VerificationOptionsView) -> Seq<Seq<u8>> {
    spec_loaded_certificates(options.pinned_certificates)
}

/// The certificates read from the trusted-anchor inputs of some options.
pub open spec fn loaded_anchors(options: crate::verify::VerificationOptionsView) -> Seq<Seq<u8>> {
    spec_loaded_certificates(options.trusted_anchor_certificates)
}

/// The SHA-256 fingerprints of some certificates, in order.
pub open spec fn spec_fingerprints(certificates: Seq<Seq<u8>>) -> Seq<Seq<char>> {
    certificates.map_values(|der: Seq<u8>| crate::certs::spec_fingerprint(der))
}

/// The report before any signature is verified: the number of selected
/// signatures, and a finding for each pinned input, then each anchor input,
/// that cannot be read.
pub open spec fn loaded_report(count: usize, options: crate::verify::VerificationOptionsView) -> crate::verify::SignatureReportView {
    crate::verify::SignatureReportView {
        errors: spec_load_findings(options.pinned_certificates, "pinned certificate"@) + spec_load_findings(
            options.trusted_anchor_certificates,
            "trusted anchor certificate"@,
        ),
        ..crate::verify::empty_signature_report(count)
    }
}

/// Whether verifying one target can take a report from `before` to
/// `after`: the signature's facts as read off the tree, some possible
/// outcome of the verifier under the pinned keys, the anchors and the
/// signature's own certificates, recorded with the pinned certificates'
/// fingerprints.
pub open spec fn step_possible(
    xml: Seq<char>,
    nodes: Seq<XmlNodeView>,
    root: Option<usize>,
    target: SignatureTarget,
    pins: Seq<Seq<u8>>,
    anchors: Seq<Seq<u8>>,
    before: crate::verify::SignatureReportView,
    after: crate::verify::SignatureReportView,
) -> bool {
    exists|facts: SignatureFacts, outcome: TargetOutcomeView, anchor: Option<Result<(), Seq<char>>>|
        #![trigger spec_record_outcome(before, facts, spec_expected_references(nodes, root, target), outcome, given(pins), spec_fingerprints(pins), anchor)]
        facts_hold(nodes, target, facts) && outcome_possible(xml, nodes, target, pins, anchors, outcome, anchor)
            && after == spec_record_outcome(
            before,
            facts,
            spec_expected_references(nodes, root, target),
            outcome,
            given(pins),
            spec_fingerprints(pins),
            anchor,
        )
}

/// Whether a list of reports is a possible run over the targets: one report
/// more than targets, each made from the one before by verifying the
/// target at its place.
pub open spec fn reports_chain(
    xml: Seq<char>,
    nodes: Seq<XmlNodeView>,
    root: Option<usize>,
    targets: Seq<SignatureTarget>,
    pins: Seq<Seq<u8>>,
    anchors: Seq<Seq<u8>>,
    reports: Seq<crate::verify::SignatureReportView>,
) -> bool {
    &&& reports.len() == targets.len() + 1
    &&& forall|i: int|
        #![trigger targets[i]]
        0 <= i < targets.len() ==> step_possible(xml, nodes, root, targets[i], pins, anchors, reports[i], reports[i + 1])
}

/// What signature verification of a dossier's text gives under some
/// options: nothing when it is switched off or no signature is selected; a
/// parse finding when the text cannot be parsed; a policy finding when the
/// dossier has more than one signature of its own; otherwise the report of
/// a possible run: it starts with the findings on unreadable pinned and
/// anchor inputs, and records each selected signature in document order
/// with the certificates read from those inputs and the pinned ones'
/// fingerprints. Such a report has one result per selected signature, with
/// its scope and `Id`, each one whose value did not verify having failed
/// trust and a finding under its `Id`.
pub open spec fn signatures_possible(
    xml: Seq<char>,
    options: crate::verify::VerificationOptionsView,
    res: Option<crate::verify::SignatureReportView>,
) -> bool {
    if !options.verify_signatures {
        res is None
    } else {
        match crate::xml::spec_parse_xml_document(xml) {
            Err(e) => res == Some(parse_failure_report(e)),
            Ok(nodes) => {
                let targets = spec_signature_targets(nodes, options.signature_scope);
                if targets.len() == 0 {
                    res is None
                } else if dossier_target_count(targets) > 1 {
                    res == Some(multiple_dossier_signatures_report(targets.len() as usize))
                } else {
                    match res {
                        None => false,
                        Some(r) => {
                            &&& exists|reports: Seq<crate::verify::SignatureReportView>|
                                #[trigger] reports_chain(
                                    xml,
                                    nodes,
                                    crate::parsed::spec_root_element(nodes),
                                    targets,
                                    loaded_pins(options),
                                    loaded_anchors(options),
                                    reports,
                                ) && reports[0] == loaded_report(targets.len() as usize, options) && reports.last() == r
                            &&& r.signature_count == targets.len()
                            &&& r.signatures.len() == targets.len()
                            &&& forall|i: int|
                                0 <= i < targets.len() ==> {
                                    &&& (#[trigger] r.signatures[i]).scope == targets[i].scope
                                    &&& r.signatures[i].id == crate::xml::spec_attribute(nodes[targets[i].node as int], "Id"@)
                                    &&& !r.signatures[i].signature_value_valid ==> {
                                        &&& r.signatures[i].trust == crate::verify::ValidationLayerStatus::Failed
                                        &&& exists|j: int| 0 <= j < r.errors.len() && #[trigger] r.errors[j].signature_id == r.signatures[i].id
                                    }
                                }
                        },
                    }
                }
            },
        }
    }
}

/// Verifies the signatures of a dossier that the options select.
pub fn verify_signatures_for_dossier(xml: &str, options: &crate::verify::VerificationOptions) -> (res: Option<crate::verify::SignatureReport>)
    ensures
        signatures_possible(xml@, options@, match res {
            Some(r) => Some(r@),
            None => None,
        }),
{
    if !options.verify_signatures() {
        return None;
    }
    let tree = match crate::xml::parse_xml_document(xml) {
        Ok(tree) => tree,
        Err(error) => {
            let mut report = crate::verify::SignatureReport::new(0);
            report.error(crate::verify::SignatureFinding::new(
                crate::verify::SignatureFindingKind::ParseError,
                crate::text::concat2("ES3 signature XML parsing failed: ", error.to_string().as_str()),
            ));
            assert(report@ =~= parse_failure_report(error@));
            return Some(report);
        },
    };
    let ghost nodes = tree@;
    let targets = signature_targets(&tree, options.signature_scope());
    if targets.len() == 0 {
        return None;
    }
    let mut report = crate::verify::SignatureReport::new(targets.len());
    if count_dossier_targets(&targets) > 1 {
        report.error(crate::verify::SignatureFinding::new(
            crate::verify::SignatureFindingKind::VerificationPolicyDenied,
            "multiple ES3 dossier signatures are not supported".to_owned(),
        ));
        assert(report@ =~= multiple_dossier_signatures_report(targets@.len() as usize));
        return Some(report);
    }
    let pinned = load_certificate_inputs(&mut report, options.pinned_certificates(), "pinned certificate");
    let anchors = load_certificate_inputs(
        &mut report,
        options.trusted_anchor_certificates(),
        "trusted anchor certificate",
    );
    let ghost pins = crate::certs::bytes_view(pinned@);
    let ghost anchs = crate::certs::bytes_view(anchors@);
    assert(report@ =~= loaded_report(targets@.len() as usize, options@));
    let mut fingerprints: Vec<String> = Vec::new();
    let mut k: usize = 0;
    assert(crate::verify::strings_view(fingerprints@) =~= spec_fingerprints(pins.take(0)));
    while k < pinned.len()
        invariant
            k <= pinned@.len(),
            pins == crate::certs::bytes_view(pinned@),
            crate::verify::strings_view(fingerprints@) == spec_fingerprints(pins.take(k as int)),
        decreases pinned@.len() - k,
    {
        let fingerprint = crate::certs::sha256_fingerprint(pinned[k].as_slice());
        fingerprints.push(fingerprint);
        assert(spec_fingerprints(pins.take(k + 1)) =~= spec_fingerprints(pins.take(k as int)).push(
            crate::certs::spec_fingerprint(pins[k as int]),
        ));
        assert(crate::verify::strings_view(fingerprints@) =~= spec_fingerprints(pins.take(k as int)).push(
            crate::certs::spec_fingerprint(pins[k as int]),
        ));
        k = k + 1;
    }
    assert(pins.take(k as int) =~= pins);
    let root = crate::parsed::root_element(&tree);
    assert(report@.signatures =~= Seq::<crate::verify::SignatureResultView>::empty());
    let ghost mut reports: Seq<crate::verify::SignatureReportView> = seq![report@];
    let mut k: usize = 0;
    while k < targets.len()
        invariant
            k <= targets@.len(),
            pins == crate::certs::bytes_view(pinned@),
            anchs == crate::certs::bytes_view(anchors@),
            crate::verify::strings_view(fingerprints@) == spec_fingerprints(pins),
            given(pinned@) == given(pins),
            reports.len() == k + 1,
            reports[k as int] == report@,
            reports[0] == loaded_report(targets@.len() as usize, options@),
            forall|i: int|
                #![trigger targets@[i]]
                0 <= i < k ==> step_possible(xml@, nodes, root, targets@[i], pins, anchs, reports[i], reports[i + 1]),
            nodes == tree@,
            tree.wf(),
            root matches Some(r) ==> r < nodes.len(),
            forall|i: int| 0 <= i < targets@.len() ==> (#[trigger] targets@[i]).node < nodes.len(),
            report@.signature_count == targets@.len(),
            report@.signatures.len() == k,
            forall|i: int|
                0 <= i < k ==> {
                    &&& (#[trigger] report@.signatures[i]).scope == targets@[i].scope
                    &&& report@.signatures[i].id == crate::xml::spec_attribute(nodes[targets@[i].node as int], "Id"@)
                    &&& !report@.signatures[i].signature_value_valid ==> {
                        &&& report@.signatures[i].trust == crate::verify::ValidationLayerStatus::Failed
                        &&& exists|j: int| 0 <= j < report@.errors.len() && #[trigger] report@.errors[j].signature_id == report@.signatures[i].id
                    }
                },
        decreases targets@.len() - k,
    {
        let target = targets[k];
        let ghost before = report@;
        verify_signature_target(
            xml,
            &tree,
            root,
            target,
            pinned.as_slice(),
            fingerprints.as_slice(),
            anchors.as_slice(),
            &mut report,
        );
        proof {
            let (facts, outcome, anchor) = choose|facts: SignatureFacts, outcome: TargetOutcomeView, anchor: Option<Result<(), Seq<char>>>|
                facts_hold(nodes, target, facts) && outcome_possible(
                    xml@,
                    nodes,
                    target,
                    crate::certs::bytes_view(pinned@),
                    crate::certs::bytes_view(anchors@),
                    outcome,
                    anchor,
                ) && report@ == spec_record_outcome(
                    before,
                    facts,
                    spec_expected_references(nodes, root, target),
                    outcome,
                    given(pinned@),
                    crate::verify::strings_view(fingerprints@),
                    anchor,
                );
            lemma_record_shape(
                before,
                facts,
                spec_expected_references(nodes, root, target),
                outcome,
                given(pinned@),
                crate::verify::strings_view(fingerprints@),
                anchor,
            );
            assert forall|i: int| 0 <= i < k + 1 implies {
                &&& (#[trigger] report@.signatures[i]).scope == targets@[i].scope
                &&& report@.signatures[i].id == crate::xml::spec_attribute(nodes[targets@[i].node as int], "Id"@)
                &&& !report@.signatures[i].signature_value_valid ==> {
                    &&& report@.signatures[i].trust == crate::verify::ValidationLayerStatus::Failed
                    &&& exists|j: int| 0 <= j < report@.errors.len() && #[trigger] report@.errors[j].signature_id == report@.signatures[i].id
                }
            } by {
                if i < k {
                    assert(report@.signatures[i] == before.signatures[i]);
                    if !report@.signatures[i].signature_value_valid {
                        let j = choose|j: int| 0 <= j < before.errors.len() && #[trigger] before.errors[j].signature_id == before.signatures[i].id;
                        assert(report@.errors[j] == before.errors[j]);
                    }
                } else {
                    assert(report@.signatures[i] == report@.signatures.last());
                    if !report@.signatures[i].signature_value_valid {
                        let j = report@.errors.len() - 1;
                        assert(report@.errors[j] == report@.errors.last());
                    }
                }
            }
            assert(targets@[k as int] == target);
            assert(step_possible(xml@, nodes, root, target, pins, anchs, before, report@));
            let old_reports = reports;
            reports = reports.push(report@);
            assert forall|i: int|
                #![trigger targets@[i]]
                0 <= i < k + 1 implies step_possible(xml@, nodes, root, targets@[i], pins, anchs, reports[i], reports[i + 1]) by {
                if i < k {
                    assert(reports[i] == old_reports[i]);
                    assert(reports[i + 1] == old_reports[i + 1]);
                } else {
                    assert(reports[i] == before);
                }
            }
        }
        k = k + 1;
    }
    proof {
        assert(reports_chain(
            xml@,
            nodes,
            crate::parsed::spec_root_element(nodes),
            targets@,
            loaded_pins(options@),
            loaded_anchors(options@),
            reports,
        ));
        assert(reports.last() == report@);
    }
    Some(report)
}

} // verus!
