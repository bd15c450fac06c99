//! What holds of the remote bridge: its addresses, its pages and where input goes.
use vstd::prelude::*;

use crate::ids::{command_id, sidebar_id};
use crate::numbers::{decimal_of, hex_digit, hex_of, hex_padded, hex_value};
use crate::remote::{
    direct_url, drawing_page, html_page, numbered_lines, relay_host_of, relay_url_of, target_of,
    token_of,
};
use crate::text::{begins, contains};
use crate::text_laws::{law_parts_are_found, law_prefixes_are_taken_off};

verus! {

proof fn lemma_padded_value(n: nat, width: nat, bound: nat)
    requires
        bound == pow16(width),
        n < bound,
    ensures
        hex_padded(n, width).len() == width,
        hex_value(hex_padded(n, width)) == n,
    decreases width,
{
    if width > 0 {
        let smaller = pow16((width - 1) as nat);
        assert(n / 16 < smaller) by (nonlinear_arith)
            requires
                n < 16 * smaller,
        ;
        lemma_padded_value(n / 16, (width - 1) as nat, smaller);
        let s = hex_padded(n, width);
        assert(s.drop_last() =~= hex_padded(n / 16, (width - 1) as nat));
        assert(s.last() == hex_digit((n % 16) as int));
        assert(n == (n / 16) * 16 + n % 16) by (nonlinear_arith);
    }
}

/// Sixteen to a power.
spec fn pow16(width: nat) -> nat
    decreases width,
{
    if width == 0 {
        1
    } else {
        16 * pow16((width - 1) as nat)
    }
}

/// A token has sixteen hexadecimal digits, which spell the bits that it was made of; different bits
/// make different tokens.
pub proof fn law_tokens_spell_their_bits(bits: u64, other: u64)
    ensures
        token_of(bits).len() == 16,
        hex_value(token_of(bits)) == bits,
        bits != other ==> token_of(bits) != token_of(other),
{
    reveal_with_fuel(pow16, 17);
    assert(pow16(16) == 0x1_0000_0000_0000_0000);
    lemma_padded_value(bits as nat, 16, pow16(16));
    lemma_padded_value(other as nat, 16, pow16(16));
}

/// An address for a device holds the host, the port and the token.
pub proof fn law_direct_urls(host: Seq<char>, port: u16, token: Seq<char>)
    ensures
        begins(direct_url(host, port, token), "kakuremote://"@ + host),
        contains(direct_url(host, port, token), ":"@ + decimal_of(port as nat) + "?token="@),
        direct_url(host, port, token).skip(direct_url(host, port, token).len() - token.len())
            == token,
{
    let url = direct_url(host, port, token);
    let head = "kakuremote://"@ + host;
    let middle = ":"@ + decimal_of(port as nat) + "?token="@;
    law_parts_are_found(Seq::empty(), head, middle + token);
    law_parts_are_found(head, middle, token);
    assert(head + (middle + token) =~= url);
    assert(head + middle + token =~= url);
    assert(url.skip(url.len() - token.len()) =~= token);
}

/// The address of a relay names the server without its scheme, and the token; it is the same whether
/// the server was given with a scheme or without.
pub proof fn law_relay_urls(host: Seq<char>, token: Seq<char>)
    requires
        !begins(host, "ws://"@),
        !begins(host, "wss://"@),
    ensures
        relay_host_of(host) == host,
        relay_host_of("wss://"@ + host) == host,
        relay_host_of("ws://"@ + host) == host,
        relay_url_of("wss://"@ + host, token) == relay_url_of(host, token),
        relay_url_of("ws://"@ + host, token) == relay_url_of(host, token),
        relay_url_of(host, token) == "kakuremote://relay?server="@ + host + "&token="@ + token,
{
    reveal_strlit("ws://");
    reveal_strlit("wss://");
    law_prefixes_are_taken_off(host, "wss://"@);
    law_prefixes_are_taken_off(host, "ws://"@);
    let plain = "ws://"@ + host;
    assert(plain[1] == 's' && plain[2] == ':');
    if begins(plain, "wss://"@) {
        assert(plain.subrange(0, 6)[2] == 's');
    }
    law_prefixes_are_taken_off(plain, "wss://"@);
}

/// The page for a terminal shows the drawing and, below it, the address; the page for a browser
/// shows both too. Where nothing could be drawn, each says so.
pub proof fn law_pages_show_drawing_and_address(drawing: Seq<char>, url: Seq<char>)
    ensures
        begins(drawing_page(Some(drawing), url), drawing),
        drawing_page(Some(drawing), url).skip(
            drawing_page(Some(drawing), url).len() - url.len(),
        ) == url,
        drawing_page(None, url) == "Failed to generate QR code"@,
        contains(html_page(Some(drawing), url), drawing),
        contains(html_page(Some(drawing), url), url),
        contains(html_page(None, url), url),
        contains(html_page(None, url), "<p>QR generation failed</p>"@),
{
    let page = drawing_page(Some(drawing), url);
    law_parts_are_found(Seq::empty(), drawing, "\n\n"@ + url);
    assert(drawing + ("\n\n"@ + url) =~= page);
    assert(page.skip(page.len() - url.len()) =~= url);
    let head = crate::remote::QR_PAGE_HEAD@;
    let middle = crate::remote::QR_PAGE_MIDDLE@;
    let tail = crate::remote::QR_PAGE_TAIL@;
    let failure = "<p>QR generation failed</p>"@;
    law_parts_are_found(head, drawing, middle + url + tail);
    assert(head + drawing + (middle + url + tail) =~= html_page(Some(drawing), url));
    law_parts_are_found(head + drawing + middle, url, tail);
    assert((head + drawing + middle) + url + tail =~= html_page(Some(drawing), url));
    law_parts_are_found(head, failure, middle + url + tail);
    assert(head + failure + (middle + url + tail) =~= html_page(None, url));
    law_parts_are_found(head + failure + middle, url, tail);
    assert((head + failure + middle) + url + tail =~= html_page(None, url));
}

/// Input goes to the pane that was asked for where it exists, and else to the first pane.
pub proof fn law_input_goes_where_asked(asked: usize, panes: Seq<usize>)
    ensures
        panes.contains(asked) ==> target_of(Some(asked), panes) == Some(asked),
        !panes.contains(asked) && panes.len() > 0 ==> target_of(Some(asked), panes) == Some(
            panes[0],
        ),
        panes.len() > 0 ==> target_of(None, panes) == Some(panes[0]),
{
}

/// The lines of a screen are numbered from its top, one after the other, each with its text.
pub proof fn law_screen_lines(texts: Seq<Seq<char>>, top: int, i: int)
    requires
        0 <= i < texts.len(),
    ensures
        numbered_lines(texts, top).len() == texts.len(),
        numbered_lines(texts, top)[i].row == top + i,
        numbered_lines(texts, top)[i].text == texts[i],
{
}

/// An id begins with its prefix and goes on with the time, the process and the count in hexadecimal
/// digits.
pub proof fn law_ids_are_made_of(prefix: Seq<char>, nanos: nat, process: nat, count: nat)
    ensures
        begins(command_id(prefix, nanos, count), prefix + "_"@ + hex_of(nanos)),
        begins(sidebar_id(prefix, nanos, process, count), prefix + "_"@ + hex_of(nanos)),
        contains(sidebar_id(prefix, nanos, process, count), hex_of(process)),
        contains(sidebar_id(prefix, nanos, process, count), hex_of(count)),
        contains(command_id(prefix, nanos, count), hex_of(count)),
{
    let head = prefix + "_"@ + hex_of(nanos);
    let id = sidebar_id(prefix, nanos, process, count);
    law_parts_are_found(Seq::empty(), head, hex_of(count));
    law_parts_are_found(Seq::empty(), head, hex_of(process) + hex_of(count));
    assert(head + (hex_of(process) + hex_of(count)) =~= id);
    law_parts_are_found(head, hex_of(process), hex_of(count));
    assert(head + hex_of(process) + hex_of(count) =~= id);
    law_parts_are_found(head + hex_of(process), hex_of(count), Seq::empty());
    assert((head + hex_of(process)) + hex_of(count) + Seq::<char>::empty() =~= id);
    law_parts_are_found(head, hex_of(count), Seq::empty());
    assert(head + hex_of(count) + Seq::<char>::empty() =~= command_id(prefix, nanos, count));
}

} // verus!
