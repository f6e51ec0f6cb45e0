# paper_unfurl

A chat bot that unfurls links to research papers (arXiv, OpenReview, ACL
Anthology, ACM Digital Library, NIPS Proceedings, PMLR) into attachments
with the paper's title, authors, abstract and links to its PDF, HTML
rendering, BibTeX and Japanese translations.

- `src/` is the library, verified with Verus: URL handling per archive,
  reading abstract pages (through `scraper`), reading the arXiv API's feed
  (through `quick-xml`), publication dates (through `chrono`), the attachment,
  and the steps that drive one link (`unfurl`). `src/laws.rs` holds the
  properties proved across operations.
- `app/` is the web service (Rocket): it receives link-shared events, fetches
  the pages the library asks for (reqwest) and posts the attachments.
- `tests/` exercise the library on concrete pages and feeds.
