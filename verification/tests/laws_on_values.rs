use paper_unfurl::links::{arxiv_abs, arxiv_pdf, nips_id_title_of, pmlr_id_of};

#[test]
fn arxiv_abstract_and_pdf_addresses_agree() {
    let abs = "https://arxiv.org/abs/1803.06643v1";
    let pdf = "https://arxiv.org/pdf/1803.06643v1";
    assert_eq!(arxiv_abs(abs), abs);
    assert_eq!(arxiv_abs(pdf), abs);
    assert_eq!(arxiv_pdf(&arxiv_abs(abs)), pdf);
    assert_eq!(arxiv_pdf(&arxiv_abs(pdf)), pdf);
}

#[test]
fn nips_addresses_agree() {
    let base = "http://papers.nips.cc/paper/3730-streaming-pointwise-mutual-information";
    let expected = "3730-streaming-pointwise-mutual-information";
    assert_eq!(nips_id_title_of(base), expected);
    assert_eq!(nips_id_title_of(&format!("{}.pdf", base)), expected);
    assert_eq!(nips_id_title_of(&format!("{}/bibtex", base)), expected);
}

#[test]
fn pmlr_addresses_agree() {
    assert_eq!(pmlr_id_of("http://proceedings.mlr.press/v48/shaha16.html"), "v48/shaha16");
    assert_eq!(pmlr_id_of("http://proceedings.mlr.press/v48/shaha16.pdf"), "v48/shaha16");
    assert_eq!(pmlr_id_of("http://proceedings.mlr.press/v48/shaha16"), "v48/shaha16");
    assert_eq!(pmlr_id_of("v48/shaha16"), "v48/shaha16");
}
