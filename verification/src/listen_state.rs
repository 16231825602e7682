//! The "waiting for connection" popup's state: the listening port, the
//! addresses offered for copying, and the selection. Addresses arrive as
//! plain text from the collaborator that enumerates interfaces.
use vstd::prelude::*;

verus! {

#[derive(Clone, Copy, PartialEq, Eq, Structural)]
pub enum ListenDisplayMode {
    AddrPort,
    NcCommand,
}

impl Default for ListenDisplayMode {
    fn default() -> (r: Self)
        ensures
            r == ListenDisplayMode::AddrPort,
    {
        ListenDisplayMode::AddrPort
    }
}

#[derive(Clone)]
pub struct ListenAddrEntry {
    pub ip: String,
    pub is_v6: bool,
    pub is_self_assigned: bool,
    pub row: u16,
}

pub struct ListenState {
    pub port: Option<u16>,
    pub has_connection: bool,
    pub display_mode: ListenDisplayMode,
    pub addr_list: Vec<ListenAddrEntry>,
    pub selected_idx: usize,
    pub popup_area: Option<(u16, u16, u16, u16)>,
}

/// The digit character of one decimal digit.
pub open spec fn dec_digit(d: int) -> char {
    if d == 0 {
        '0'
    } else if d == 1 {
        '1'
    } else if d == 2 {
        '2'
    } else if d == 3 {
        '3'
    } else if d == 4 {
        '4'
    } else if d == 5 {
        '5'
    } else if d == 6 {
        '6'
    } else if d == 7 {
        '7'
    } else if d == 8 {
        '8'
    } else {
        '9'
    }
}

/// The decimal numeral of a non-negative integer, most significant digit
/// first, with no leading zero except for zero itself.
pub open spec fn spec_dec(n: int) -> Seq<char>
    decreases n,
{
    if n < 0 {
        Seq::empty()
    } else if n < 10 {
        seq![dec_digit(n)]
    } else {
        spec_dec(n / 10) + seq![dec_digit(n % 10)]
    }
}

fn digit_str(d: u16) -> (r: &'static str)
    requires
        d < 10,
    ensures
        r@ == seq![dec_digit(d as int)],
{
    if d == 0 {
        proof {
            reveal_strlit("0");
        }
        assert(("0")@ =~= seq![dec_digit(0)]);
        "0"
    } else if d == 1 {
        proof {
            reveal_strlit("1");
        }
        assert(("1")@ =~= seq![dec_digit(1)]);
        "1"
    } else if d == 2 {
        proof {
            reveal_strlit("2");
        }
        assert(("2")@ =~= seq![dec_digit(2)]);
        "2"
    } else if d == 3 {
        proof {
            reveal_strlit("3");
        }
        assert(("3")@ =~= seq![dec_digit(3)]);
        "3"
    } else if d == 4 {
        proof {
            reveal_strlit("4");
        }
        assert(("4")@ =~= seq![dec_digit(4)]);
        "4"
    } else if d == 5 {
        proof {
            reveal_strlit("5");
        }
        assert(("5")@ =~= seq![dec_digit(5)]);
        "5"
    } else if d == 6 {
        proof {
            reveal_strlit("6");
        }
        assert(("6")@ =~= seq![dec_digit(6)]);
        "6"
    } else if d == 7 {
        proof {
            reveal_strlit("7");
        }
        assert(("7")@ =~= seq![dec_digit(7)]);
        "7"
    } else if d == 8 {
        proof {
            reveal_strlit("8");
        }
        assert(("8")@ =~= seq![dec_digit(8)]);
        "8"
    } else {
        proof {
            reveal_strlit("9");
        }
        assert(("9")@ =~= seq![dec_digit(9)]);
        "9"
    }
}

/// The decimal numeral of a port number.
pub fn dec_u16(n: u16) -> (r: String)
    ensures
        r@ == spec_dec(n as int),
    decreases n,
{
    if n < 10 {
        digit_str(n).to_owned()
    } else {
        let mut s = dec_u16(n / 10);
        s.append(digit_str(n % 10));
        s
    }
}

/// What the selected entry would put on the clipboard: `address:port`
/// (the address bracketed when it is a v6 one), or the matching `nc`
/// command line.
pub open spec fn spec_copy_text(s: &ListenState) -> Option<Seq<char>> {
    match s.port {
        Option::None => Option::None,
        Option::Some(port) => if s.selected_idx >= s.addr_list@.len() {
            Option::None
        } else {
            let e = s.addr_list@[s.selected_idx as int];
            Option::Some(
                match s.display_mode {
                    ListenDisplayMode::AddrPort => if e.is_v6 {
                        seq!['['] + e.ip@ + seq![']', ':'] + spec_dec(port as int)
                    } else {
                        e.ip@ + seq![':'] + spec_dec(port as int)
                    },
                    ListenDisplayMode::NcCommand => if e.is_v6 {
                        "nc -6 "@ + e.ip@ + seq![' '] + spec_dec(port as int)
                    } else {
                        "nc "@ + e.ip@ + seq![' '] + spec_dec(port as int)
                    },
                },
            )
        },
    }
}

/// The first entry whose row, offset by the popup's top, matches `y`.
pub open spec fn spec_find_row(list: Seq<ListenAddrEntry>, py: int, y: int, from: int) -> Option<
    int,
>
    decreases list.len() - from,
{
    if from < 0 || from >= list.len() {
        Option::None
    } else if y == py + list[from].row {
        Option::Some(from)
    } else {
        spec_find_row(list, py, y, from + 1)
    }
}

impl ListenState {
    /// A fresh popup state for a port, before any address is offered and
    /// before anything connects.
    pub fn new(port: Option<u16>) -> (r: Self)
        ensures
            r.port == port,
            r.has_connection == false,
            r.display_mode == ListenDisplayMode::AddrPort,
            r.addr_list@.len() == 0,
            r.selected_idx == 0,
            r.popup_area is None,
    {
        ListenState {
            port,
            has_connection: false,
            display_mode: ListenDisplayMode::default(),
            addr_list: Vec::new(),
            selected_idx: 0,
            popup_area: Option::None,
        }
    }

    /// The selection stays inside the list whenever the list is not empty.
    pub open spec fn wf(&self) -> bool {
        self.addr_list@.len() > 0 ==> self.selected_idx < self.addr_list@.len()
    }

    /// The popup shows while a port is being listened on and nothing has
    /// connected yet.
    pub fn show_popup(&self) -> (r: bool)
        ensures
            r == (self.port is Some && !self.has_connection),
    {
        match self.port {
            Option::Some(_) => !self.has_connection,
            Option::None => false,
        }
    }

    /// Switch between the address form and the `nc` command form.
    pub fn toggle_display_mode(&mut self)
        ensures
            final(self).display_mode == (match old(self).display_mode {
                ListenDisplayMode::AddrPort => ListenDisplayMode::NcCommand,
                ListenDisplayMode::NcCommand => ListenDisplayMode::AddrPort,
            }),
            final(self).port == old(self).port,
            final(self).has_connection == old(self).has_connection,
            final(self).addr_list == old(self).addr_list,
            final(self).selected_idx == old(self).selected_idx,
            final(self).popup_area == old(self).popup_area,
    {
        self.display_mode = match self.display_mode {
            ListenDisplayMode::AddrPort => ListenDisplayMode::NcCommand,
            ListenDisplayMode::NcCommand => ListenDisplayMode::AddrPort,
        };
    }

    /// Move the selection down, wrapping at the end; nothing happens on an
    /// empty list.
    pub fn select_next(&mut self)
        requires
            old(self).wf(),
        ensures
            final(self).wf(),
            old(self).addr_list@.len() == 0 ==> *final(self) == *old(self),
            old(self).addr_list@.len() > 0 ==> final(self).selected_idx as int == (if old(
                self,
            ).selected_idx + 1 == old(self).addr_list@.len() {
                0int
            } else {
                old(self).selected_idx + 1
            }),
            final(self).addr_list == old(self).addr_list,
            final(self).port == old(self).port,
    {
        let len = self.addr_list.len();
        if len > 0 {
            self.selected_idx = if self.selected_idx + 1 >= len {
                0
            } else {
                self.selected_idx + 1
            };
        }
    }

    /// Move the selection up, wrapping at the start; nothing happens on an
    /// empty list.
    pub fn select_prev(&mut self)
        requires
            old(self).wf(),
        ensures
            final(self).wf(),
            old(self).addr_list@.len() == 0 ==> *final(self) == *old(self),
            old(self).addr_list@.len() > 0 ==> final(self).selected_idx as int == (if old(
                self,
            ).selected_idx == 0 {
                old(self).addr_list@.len() - 1
            } else {
                old(self).selected_idx - 1
            }),
            final(self).addr_list == old(self).addr_list,
            final(self).port == old(self).port,
    {
        let len = self.addr_list.len();
        if len > 0 {
            self.selected_idx = if self.selected_idx == 0 {
                len - 1
            } else {
                self.selected_idx - 1
            };
        }
    }

    /// The clipboard text for the selected entry, exactly as
    /// `spec_copy_text` lays it out; nothing without a port or with the
    /// selection out of range.
    pub fn get_selected_copy_text(&self) -> (r: Option<String>)
        ensures
            match r {
                Option::Some(s) => spec_copy_text(self) == Option::Some(s@),
                Option::None => spec_copy_text(self) is None,
            },
    {
        let port = match self.port {
            Option::Some(p) => p,
            Option::None => {
                return Option::None;
            },
        };
        if self.selected_idx >= self.addr_list.len() {
            return Option::None;
        }
        let entry = &self.addr_list[self.selected_idx];
        let port_s = dec_u16(port);
        let mut out = String::new();
        match self.display_mode {
            ListenDisplayMode::AddrPort => {
                if entry.is_v6 {
                    out.append("[");
                    out.append(entry.ip.as_str());
                    out.append("]:");
                    out.append(port_s.as_str());
                    proof {
                        reveal_strlit("[");
                        reveal_strlit("]:");
                        assert(out@ =~= seq!['['] + entry.ip@ + seq![']', ':'] + spec_dec(
                            port as int,
                        ));
                    }
                } else {
                    out.append(entry.ip.as_str());
                    out.append(":");
                    out.append(port_s.as_str());
                    proof {
                        reveal_strlit(":");
                        assert(out@ =~= entry.ip@ + seq![':'] + spec_dec(port as int));
                    }
                }
            },
            ListenDisplayMode::NcCommand => {
                if entry.is_v6 {
                    out.append("nc -6 ");
                    out.append(entry.ip.as_str());
                    out.append(" ");
                    out.append(port_s.as_str());
                    proof {
                        reveal_strlit(" ");
                        assert(out@ =~= "nc -6 "@ + entry.ip@ + seq![' '] + spec_dec(
                            port as int,
                        ));
                    }
                } else {
                    out.append("nc ");
                    out.append(entry.ip.as_str());
                    out.append(" ");
                    out.append(port_s.as_str());
                    proof {
                        reveal_strlit(" ");
                        assert(out@ =~= "nc "@ + entry.ip@ + seq![' '] + spec_dec(port as int));
                    }
                }
            },
        }
        Option::Some(out)
    }

    /// A click inside the popup on an entry's row selects that entry and
    /// yields its clipboard text; a click anywhere else changes nothing
    /// and yields nothing.
    pub fn handle_click(&mut self, x: u16, y: u16) -> (r: Option<String>)
        ensures
            ({
                let inside = match old(self).popup_area {
                    Option::Some(a) => a.0 <= x && (x as int) < a.0 + a.2 && a.1 <= y && (
                    y as int) < a.1 + a.3,
                    Option::None => false,
                };
                if !inside {
                    *final(self) == *old(self) && r is None
                } else {
                    match spec_find_row(
                        old(self).addr_list@,
                        (match old(self).popup_area {
                            Option::Some(a) => a.1 as int,
                            Option::None => 0,
                        }),
                        y as int,
                        0,
                    ) {
                        Option::Some(k) => {
                            &&& final(self).selected_idx == k
                            &&& final(self).addr_list == old(self).addr_list
                            &&& final(self).port == old(self).port
                            &&& final(self).display_mode == old(self).display_mode
                            &&& final(self).popup_area == old(self).popup_area
                            &&& final(self).has_connection == old(self).has_connection
                            &&& (match r {
                                Option::Some(s) => spec_copy_text(final(self))
                                    == Option::Some(s@),
                                Option::None => spec_copy_text(final(self)) is None,
                            })
                        },
                        Option::None => *final(self) == *old(self) && r is None,
                    }
                }
            }),
    {
        let (px, py, pw, ph) = match self.popup_area {
            Option::Some(a) => a,
            Option::None => {
                return Option::None;
            },
        };
        let xw = x as u32;
        let yw = y as u32;
        if xw < px as u32 || xw >= px as u32 + pw as u32 || yw < py as u32 || yw >= py as u32
            + ph as u32 {
            return Option::None;
        }
        let mut idx: usize = 0;
        let n = self.addr_list.len();
        while idx < n
            invariant
                n == self.addr_list@.len(),
                0 <= idx <= n,
                old(self).popup_area == Option::Some((px, py, pw, ph)),
                px <= x && (x as int) < px + pw && py <= y && (y as int) < py + ph,
                spec_find_row(self.addr_list@, py as int, y as int, 0) == spec_find_row(
                    self.addr_list@,
                    py as int,
                    y as int,
                    idx as int,
                ),
                *self == *old(self),
            decreases n - idx,
        {
            let row = self.addr_list[idx].row;
            if (y as u32) == py as u32 + row as u32 {
                self.selected_idx = idx;
                return self.get_selected_copy_text();
            }
            idx += 1;
        }
        Option::None
    }
}

} // verus!
