//! The waterfall renderer: composes the connection summary, the status line
//! with the header list, the body location and the two-row waterfall diagram
//! into the final report text.
//!
//! The diagram layout depends on the request's transport: a secure URL gets
//! the five-segment layout with the TLS handshake phase, any other URL the
//! four-segment layout without it (the TLS value is not folded into another
//! segment). Each value is floored to whole milliseconds and stamped into a
//! fixed-width field so successive runs line up. The output is plain text;
//! terminal color is a presentation concern left to the caller.

use crate::headers::{parse_code_spec, parse_status_line_spec, parse_version_spec};
use crate::response::{Response, ResponseModel};
use crate::text::{
    center_pad, center_pad_spec, dec_signed_spec, dec_spec, i64_to_string, is_digit, left_pad,
    left_pad_spec, lemma_dec_spec_digits, lemma_dec_spec_val, lemma_digits_end_from_is,
    lemma_find_from_is, u64_to_string,
};
use crate::timing::{metrics_wf, MetricsModel, MAX_TIME_MICROS};
use crate::FIELD_WIDTH;
use vstd::prelude::*;
use vstd::string::*;

verus! {

/// Whether the request travelled over TLS, as told by its URL's scheme.
#[derive(Clone, Copy, Debug, PartialEq, Eq)]
pub enum TransportKind {
    Plain,
    Secure,
}

/// Secure exactly when the URL starts with `https://`.
pub open spec fn transport_spec(url: Seq<char>) -> TransportKind {
    if url.len() >= 8 && url.subrange(0, 8) == "https://"@ {
        TransportKind::Secure
    } else {
        TransportKind::Plain
    }
}

/// The transport of a requested URL.
pub fn transport_of(url: &str) -> (t: TransportKind)
    ensures
        t == transport_spec(url@),
{
    let n = url.unicode_len();
    if n >= 8 && crate::text::str_eq(url.substring_char(0, 8), "https://") {
        TransportKind::Secure
    } else {
        TransportKind::Plain
    }
}

/// Microseconds scaled to whole milliseconds, truncated toward zero.
pub open spec fn ms_of_us(us: int) -> int {
    if us >= 0 {
        us / 1000
    } else {
        -((-us) / 1000)
    }
}

/// Microseconds scaled to whole milliseconds, truncated toward zero.
pub fn us_to_ms(us: i64) -> (r: i64)
    requires
        -(MAX_TIME_MICROS as int) < us < MAX_TIME_MICROS,
    ensures
        r == ms_of_us(us as int),
{
    if us >= 0 {
        ((us as u64) / 1000) as i64
    } else {
        let m = ((-us) as u64) / 1000;
        -(m as i64)
    }
}

/// A duration in microseconds as a centered fixed-width field of whole
/// milliseconds, e.g. ` 10ms  `.
pub open spec fn fmta_spec(us: int) -> Seq<char> {
    center_pad_spec(dec_signed_spec(ms_of_us(us)) + "ms"@, FIELD_WIDTH as int)
}

/// A cumulative time in microseconds as a left-aligned fixed-width field of
/// whole milliseconds, e.g. `200ms  `.
pub open spec fn fmtb_spec(us: int) -> Seq<char> {
    left_pad_spec(dec_signed_spec(ms_of_us(us)) + "ms"@, FIELD_WIDTH as int)
}

/// The connection summary line.
pub open spec fn connection_text_spec(m: MetricsModel) -> Seq<char> {
    "Connected to "@ + m.remote_ip + ":"@ + m.remote_port + " from "@ + m.local_ip + ":"@
        + m.local_port + "\n\n"@
}

/// The rendered status line: protocol, major version and status code.
pub open spec fn status_line_spec(version: u8, code: u16) -> Seq<char> {
    "HTTP/"@ + dec_spec(version as int) + " "@ + dec_spec(code as int)
}

/// The rendered header items from index `j` on, one `name: value` per line.
pub open spec fn items_text_from(items: Seq<(Seq<char>, Seq<char>)>, j: int) -> Seq<char>
    decreases items.len() - j,
{
    if j < 0 || j >= items.len() {
        Seq::empty()
    } else {
        items[j].0 + ": "@ + items[j].1 + "\n"@ + items_text_from(items, j + 1)
    }
}

/// The status line and the header list.
pub open spec fn header_text_spec(version: u8, code: u16, items: Seq<(Seq<char>, Seq<char>)>) -> Seq<
    char,
> {
    status_line_spec(version, code) + "\n"@ + items_text_from(items, 0)
}

/// The body-location line.
pub open spec fn body_location_spec(filename: Seq<char>) -> Seq<char> {
    "\nBody stored in: "@ + filename + "\n"@
}

/// The five-segment waterfall for a TLS transport: DNS, TCP connect, TLS
/// handshake, server processing, content transfer, over the cumulative track.
pub open spec fn waterfall_secure_spec(m: MetricsModel) -> Seq<char> {
    "\n  DNS Lookup   TCP Connection   TLS Handshake   Server Processing   Content Transfer\n[   "@
        + fmta_spec(m.range_dns as int) + "  |     "@ + fmta_spec(m.range_connection as int)
        + "    |    "@ + fmta_spec(m.range_ssl as int) + "    |      "@ + fmta_spec(
        m.range_server as int,
    ) + "      |      "@ + fmta_spec(m.range_transfer as int)
        + "     ]\n             |                |               |                   |                  |\n    namelookup:"@
        + fmtb_spec(m.time_namelookup as int)
        + "        |               |                   |                  |\n                        connect:"@
        + fmtb_spec(m.time_connect as int)
        + "       |                   |                  |\n                                    pretransfer:"@
        + fmtb_spec(m.time_pretransfer as int)
        + "           |                  |\n                                                      starttransfer:"@
        + fmtb_spec(m.time_starttransfer as int)
        + "          |\n                                                                                 total:"@
        + fmtb_spec(m.time_total as int) + "\n\n"@
}

/// The four-segment waterfall for a plain transport: DNS, TCP connect,
/// server processing, content transfer; the TLS phase is omitted entirely
/// and not folded into any other segment.
pub open spec fn waterfall_plain_spec(m: MetricsModel) -> Seq<char> {
    "\n  DNS Lookup   TCP Connection   Server Processing   Content Transfer\n[   "@ + fmta_spec(
        m.range_dns as int,
    ) + "  |     "@ + fmta_spec(m.range_connection as int) + "    |      "@ + fmta_spec(
        m.range_server as int,
    ) + "      |      "@ + fmta_spec(m.range_transfer as int)
        + "    ]\n|            |                |                   |                 |\n    namelookup:"@
        + fmtb_spec(m.time_namelookup as int)
        + "        |                   |                 |\n                        connect:"@
        + fmtb_spec(m.time_connect as int)
        + "           |                 |\n                                      starttransfer:"@
        + fmtb_spec(m.time_starttransfer as int)
        + "         |\n                                                                total:"@
        + fmtb_spec(m.time_total as int) + "\n"@
}

/// The waterfall for the given transport.
pub open spec fn waterfall_spec(m: MetricsModel, t: TransportKind) -> Seq<char> {
    match t {
        TransportKind::Secure => waterfall_secure_spec(m),
        TransportKind::Plain => waterfall_plain_spec(m),
    }
}

/// The whole report: connection summary, status line and headers, body
/// location, waterfall diagram — in that fixed order.
pub open spec fn response_text_spec(r: ResponseModel, t: TransportKind) -> Seq<char> {
    connection_text_spec(r.metrics) + header_text_spec(
        r.headers.version,
        r.headers.code,
        r.headers.items,
    ) + body_location_spec(r.body.filename) + waterfall_spec(r.metrics, t)
}

/// Renders one [`Response`] for the URL that was requested.
pub struct Printer {
    pub resp: Response,
    pub url: String,
}

impl Printer {
    /// Wraps a response and its requested URL for rendering.
    pub fn new(resp: Response, url: String) -> (p: Printer)
        ensures
            p.resp == resp,
            p.url == url,
    {
        Printer { resp, url }
    }

    /// A phase duration as a centered fixed-width milliseconds field.
    pub fn fmta(&self, n: i64) -> (r: String)
        requires
            -(MAX_TIME_MICROS as int) < n < MAX_TIME_MICROS,
        ensures
            r@ == fmta_spec(n as int),
    {
        let ms = us_to_ms(n);
        let mut s = i64_to_string(ms);
        s.append("ms");
        center_pad(s, FIELD_WIDTH)
    }

    /// A cumulative time as a left-aligned fixed-width milliseconds field.
    pub fn fmtb(&self, n: i64) -> (r: String)
        requires
            -(MAX_TIME_MICROS as int) < n < MAX_TIME_MICROS,
        ensures
            r@ == fmtb_spec(n as int),
    {
        let ms = us_to_ms(n);
        let mut s = i64_to_string(ms);
        s.append("ms");
        left_pad(s, FIELD_WIDTH)
    }

    /// The connection summary line: remote and local address of the request.
    pub fn format_connection_text(&self) -> (r: String)
        ensures
            r@ == connection_text_spec(self.resp.metrics.model()),
    {
        let m = &self.resp.metrics;
        let mut s = String::from_str("Connected to ");
        s.append(m.remote_ip.as_str());
        s.append(":");
        s.append(m.remote_port.as_str());
        s.append(" from ");
        s.append(m.local_ip.as_str());
        s.append(":");
        s.append(m.local_port.as_str());
        s.append("\n\n");
        proof {
            assert(s@ =~= connection_text_spec(self.resp.metrics.model()));
        }
        s
    }

    /// The status line and every header item, one per line.
    pub fn format_header_text(&self) -> (r: String)
        ensures
            r@ == header_text_spec(
                self.resp.headers.version,
                self.resp.headers.code,
                self.resp.headers.model().items,
            ),
    {
        let h = &self.resp.headers;
        let ghost items = h.model().items;
        let mut s = String::from_str("HTTP/");
        let v = u64_to_string(h.version as u64);
        s.append(v.as_str());
        s.append(" ");
        let c = u64_to_string(h.code as u64);
        s.append(c.as_str());
        s.append("\n");
        proof {
            assert(s@ =~= status_line_spec(h.version, h.code) + "\n"@);
        }
        let mut i: usize = 0;
        while i < h.items.len()
            invariant
                i <= h.items@.len(),
                items == self.resp.headers.model().items,
                items.len() == h.items@.len(),
                h == &self.resp.headers,
                s@ + items_text_from(items, i as int) =~= status_line_spec(h.version, h.code)
                    + "\n"@ + items_text_from(items, 0),
            decreases h.items@.len() - i,
        {
            let ghost old_s = s@;
            s.append(h.items[i].0.as_str());
            s.append(": ");
            s.append(h.items[i].1.as_str());
            s.append("\n");
            proof {
                assert(items[i as int] == (h.items@[i as int].0@, h.items@[i as int].1@));
                assert(s@ =~= old_s + (items[i as int].0 + ": "@ + items[i as int].1 + "\n"@));
                assert(old_s + (items[i as int].0 + ": "@ + items[i as int].1 + "\n"@)
                    + items_text_from(items, i as int + 1) =~= old_s + items_text_from(
                    items,
                    i as int,
                ));
            }
            i = i + 1;
        }
        proof {
            assert(items_text_from(items, items.len() as int) =~= Seq::<char>::empty());
            assert(s@ =~= header_text_spec(h.version, h.code, items));
        }
        s
    }

    /// The line naming the capture sink that holds the response body.
    pub fn format_body_location_text(&self) -> (r: String)
        ensures
            r@ == body_location_spec(self.resp.body.filename@),
    {
        let mut s = String::from_str("\nBody stored in: ");
        s.append(self.resp.body.filename.as_str());
        s.append("\n");
        proof {
            assert(s@ =~= body_location_spec(self.resp.body.filename@));
        }
        s
    }

    /// The waterfall diagram, in the layout chosen by the URL's transport.
    pub fn format_body_text(&self) -> (r: String)
        requires
            metrics_wf(self.resp.metrics.model()),
        ensures
            r@ == waterfall_spec(self.resp.metrics.model(), transport_spec(self.url@)),
    {
        let m = &self.resp.metrics;
        let transport = transport_of(self.url.as_str());
        match transport {
            TransportKind::Secure => {
                let mut s = String::from_str(
                    "\n  DNS Lookup   TCP Connection   TLS Handshake   Server Processing   Content Transfer\n[   ",
                );
                let a0 = self.fmta(m.range_dns);
                s.append(a0.as_str());
                s.append("  |     ");
                let a1 = self.fmta(m.range_connection);
                s.append(a1.as_str());
                s.append("    |    ");
                let a2 = self.fmta(m.range_ssl);
                s.append(a2.as_str());
                s.append("    |      ");
                let a3 = self.fmta(m.range_server);
                s.append(a3.as_str());
                s.append("      |      ");
                let a4 = self.fmta(m.range_transfer);
                s.append(a4.as_str());
                s.append(
                    "     ]\n             |                |               |                   |                  |\n    namelookup:",
                );
                let b0 = self.fmtb(m.time_namelookup as i64);
                s.append(b0.as_str());
                s.append(
                    "        |               |                   |                  |\n                        connect:",
                );
                let b1 = self.fmtb(m.time_connect as i64);
                s.append(b1.as_str());
                s.append(
                    "       |                   |                  |\n                                    pretransfer:",
                );
                let b2 = self.fmtb(m.time_pretransfer as i64);
                s.append(b2.as_str());
                s.append(
                    "           |                  |\n                                                      starttransfer:",
                );
                let b3 = self.fmtb(m.time_starttransfer as i64);
                s.append(b3.as_str());
                s.append(
                    "          |\n                                                                                 total:",
                );
                let b4 = self.fmtb(m.time_total as i64);
                s.append(b4.as_str());
                s.append("\n\n");
                proof {
                    assert(s@ =~= waterfall_secure_spec(self.resp.metrics.model()));
                }
                s
            },
            TransportKind::Plain => {
                let mut s = String::from_str(
                    "\n  DNS Lookup   TCP Connection   Server Processing   Content Transfer\n[   ",
                );
                let a0 = self.fmta(m.range_dns);
                s.append(a0.as_str());
                s.append("  |     ");
                let a1 = self.fmta(m.range_connection);
                s.append(a1.as_str());
                s.append("    |      ");
                let a2 = self.fmta(m.range_server);
                s.append(a2.as_str());
                s.append("      |      ");
                let a3 = self.fmta(m.range_transfer);
                s.append(a3.as_str());
                s.append(
                    "    ]\n|            |                |                   |                 |\n    namelookup:",
                );
                let b0 = self.fmtb(m.time_namelookup as i64);
                s.append(b0.as_str());
                s.append(
                    "        |                   |                 |\n                        connect:",
                );
                let b1 = self.fmtb(m.time_connect as i64);
                s.append(b1.as_str());
                s.append(
                    "           |                 |\n                                      starttransfer:",
                );
                let b2 = self.fmtb(m.time_starttransfer as i64);
                s.append(b2.as_str());
                s.append(
                    "         |\n                                                                total:",
                );
                let b3 = self.fmtb(m.time_total as i64);
                s.append(b3.as_str());
                s.append("\n");
                proof {
                    assert(s@ =~= waterfall_plain_spec(self.resp.metrics.model()));
                }
                s
            },
        }
    }

    /// The whole report text: connection summary, status line and headers,
    /// body location, waterfall diagram.
    pub fn format_response_text(&self) -> (r: String)
        requires
            metrics_wf(self.resp.metrics.model()),
        ensures
            r@ == response_text_spec(self.resp.model(), transport_spec(self.url@)),
    {
        let mut s = self.format_connection_text();
        let h = self.format_header_text();
        s.append(h.as_str());
        let b = self.format_body_location_text();
        s.append(b.as_str());
        let w = self.format_body_text();
        s.append(w.as_str());
        proof {
            assert(s@ =~= response_text_spec(self.resp.model(), transport_spec(self.url@)));
        }
        s
    }
}

/// Law: the round trip through the printed status line is lossless — parsing
/// the status line that the renderer prints for a version/code pair recovers
/// exactly that protocol version and status code.
pub proof fn lemma_status_line_round_trip(version: u8, code: u16)
    ensures
        parse_status_line_spec(status_line_spec(version, code)) == Some((version, code)),
{
    reveal_strlit("HTTP/");
    reveal_strlit(" ");
    let dv = dec_spec(version as int);
    let dc = dec_spec(code as int);
    let line = status_line_spec(version, code);
    lemma_dec_spec_digits(version as int);
    lemma_dec_spec_digits(code as int);
    lemma_dec_spec_val(version as int);
    lemma_dec_spec_val(code as int);
    let lv = dv.len() as int;
    let lc = dc.len() as int;
    assert(line.len() == 5 + lv + 1 + lc);
    // the first space is the one printed between version and code
    assert forall|k: int| 0 <= k < 5 + lv implies line[k] != ' ' by {
        if k < 5 {
            assert(line[k] == "HTTP/"@[k]);
        } else {
            assert(line[k] == dv[k - 5]);
            assert(is_digit(dv[k - 5]));
        }
    }
    assert(line[5 + lv] == ' ');
    lemma_find_from_is(line, ' ', 0, 5 + lv);
    let proto = line.subrange(0, 5 + lv);
    let rest = line.subrange(5 + lv + 1, line.len() as int);
    assert(proto =~= "HTTP/"@ + dv);
    assert(rest =~= dc);
    // the protocol token: 'HTTP', a slash, then the version digits
    assert forall|k: int| 0 <= k < 4 implies proto[k] != '/' by {
        assert(proto[k] == "HTTP/"@[k]);
    }
    assert(proto[4] == '/');
    lemma_find_from_is(proto, '/', 0, 4);
    assert(forall|k: int| 5 <= k < 5 + lv ==> is_digit(#[trigger] proto[k]));
    lemma_digits_end_from_is(proto, 5, 5 + lv);
    assert(proto.subrange(5, 5 + lv) =~= dv);
    assert(parse_version_spec(proto) == Some(version));
    // the remainder: exactly the code digits
    assert(is_digit(rest[0]));
    assert(forall|k: int| 0 <= k < lc ==> is_digit(#[trigger] rest[k]));
    lemma_digits_end_from_is(rest, 0, lc);
    assert(rest.subrange(0, lc) =~= dc);
    assert(parse_code_spec(rest) == Some(code));
}

} // verus!
