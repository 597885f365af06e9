use attiny85::spi::{
    MicroSPI, RoleMaster, RoleSlave, SpiLink, UsiAction, UsiPort, UsiRegister, SPI, SPIRead, SPIWrite,
    USIOIF,
};
use std::cell::RefCell;
use std::convert::Infallible;
use std::rc::Rc;

use UsiAction::{Read, Ready, Received, Write};
use UsiRegister::{Buffer, Control, Data, Direction, Status};

#[test]
fn master_init_sets_pins_and_three_wire_mode() {
    let mut m = MicroSPI::<RoleMaster>::new();
    assert_eq!(m.init(), Read(Direction));
    assert_eq!(m.step(0xf9), Write(Direction, 0xfe));
    assert_eq!(m.step(0), Write(Control, 0x1c));
    assert_eq!(m.step(0), Ready);
    assert!(m.is_idle());
}

#[test]
fn slave_init_sets_pins_and_three_wire_mode() {
    let mut s = MicroSPI::<RoleSlave>::new();
    assert_eq!(s.init(), Read(Direction));
    assert_eq!(s.step(0xff), Write(Direction, 0xfa));
    assert_eq!(s.step(0), Write(Control, 0x1c));
    assert_eq!(s.step(0), Ready);
    assert!(s.is_idle());
}

#[test]
fn init_from_cleared_direction_register() {
    let mut m = MicroSPI::<RoleMaster>::new();
    m.init();
    assert_eq!(m.step(0x00), Write(Direction, 0x06));
    let mut s = MicroSPI::<RoleSlave>::new();
    s.init();
    assert_eq!(s.step(0x00), Write(Direction, 0x02));
}

#[test]
fn master_exchange_strobes_until_overflow() {
    let mut m = MicroSPI::<RoleMaster>::new();
    assert!(m.is_idle());
    assert_eq!(m.exchange(0x5a), Write(Data, 0x5a));
    assert!(!m.is_idle());
    assert_eq!(m.step(0), Read(Status));
    assert_eq!(m.step(0x05), Write(Status, 0x45));
    assert_eq!(m.step(0), Read(Control));
    assert_eq!(m.step(0x1c), Write(Control, 0x1f));
    assert_eq!(m.step(0), Read(Status));
    assert_eq!(m.step(0x01), Read(Control));
    assert_eq!(m.step(0x1c), Write(Control, 0x1f));
    assert_eq!(m.step(0), Read(Status));
    assert_eq!(m.step(0x40), Read(Buffer));
    assert_eq!(m.step(0xa7), Received(0xa7));
    assert!(m.is_idle());
    assert_eq!(m.step(0x33), Ready);
}

#[test]
fn slave_exchange_waits_for_overflow() {
    let mut s = MicroSPI::<RoleSlave>::new();
    assert_eq!(s.exchange(0x3a), Write(Data, 0x3a));
    assert_eq!(s.step(0), Write(Status, USIOIF));
    assert_eq!(s.step(0), Read(Status));
    assert_eq!(s.step(0x07), Read(Status));
    assert_eq!(s.step(0x0f), Read(Status));
    assert_eq!(s.step(0x40), Read(Buffer));
    assert_eq!(s.step(0x00), Received(0x00));
    assert!(s.is_idle());
}

/// A register file that behaves like the USI in three-wire mode: each
/// clock toggle shifts one bit between the data register and the peer's
/// byte, and sixteen toggles overflow the counter.
struct SimUsi {
    ddrb: u8,
    usicr: u8,
    usisr: u8,
    usidr: u8,
    usibr: u8,
    peer: u8,
    toggles: u8,
    sent: u8,
}

impl SimUsi {
    fn new(peer: u8) -> Self {
        SimUsi { ddrb: 0, usicr: 0, usisr: 0, usidr: 0, usibr: 0, peer, toggles: 0, sent: 0 }
    }

    fn read(&self, r: UsiRegister) -> u8 {
        match r {
            Direction => self.ddrb,
            Control => self.usicr,
            Status => self.usisr,
            Data => self.usidr,
            Buffer => self.usibr,
        }
    }

    fn write(&mut self, r: UsiRegister, v: u8) {
        match r {
            Direction => self.ddrb = v,
            Data => {
                self.usidr = v;
                self.sent = v;
            }
            Buffer => self.usibr = v,
            Status => {
                self.usisr = (self.usisr & !(v & 0xf0)) | (v & 0x0f);
                self.toggles = v & 0x0f;
            }
            Control => {
                self.usicr = v & 0xfc;
                if v & 0x01 != 0 {
                    self.toggles += 1;
                    if self.toggles % 2 == 0 {
                        let bit = (self.peer >> (8 - self.toggles / 2)) & 1;
                        self.usidr = (self.usidr << 1) | bit;
                    }
                    if self.toggles == 16 {
                        self.usisr |= USIOIF;
                        self.usibr = self.usidr;
                        self.toggles = 0;
                    }
                }
            }
        }
    }
}

fn drive(sim: &mut SimUsi, m: &mut MicroSPI<RoleMaster>, mut a: UsiAction) -> (UsiAction, usize) {
    let mut steps = 0;
    loop {
        let e = match a {
            Read(r) => sim.read(r),
            Write(r, v) => {
                sim.write(r, v);
                0
            }
            Ready | Received(_) => return (a, steps),
        };
        a = m.step(e);
        steps += 1;
    }
}

#[test]
fn master_over_simulated_usi_receives_peer_byte() {
    let mut sim = SimUsi::new(0xc3);
    let mut m = MicroSPI::<RoleMaster>::new();
    let first = m.init();
    assert_eq!(drive(&mut sim, &mut m, first).0, Ready);
    assert_eq!(sim.ddrb, 0x06);
    assert_eq!(sim.usicr, 0x1c);
    let first = m.exchange(0x81);
    let (end, steps) = drive(&mut sim, &mut m, first);
    assert_eq!(end, Received(0xc3));
    assert_eq!(sim.sent, 0x81);
    // clear flag (2 accesses) + 16 strobes of 3 accesses + buffer read + done.
    assert_eq!(steps, 1 + 2 + 16 * 3 + 1);
    let first = m.exchange(0x00);
    sim.peer = 0x3a;
    assert_eq!(drive(&mut sim, &mut m, first).0, Received(0x3a));
}

/// A port that answers each byte with the complement of the byte plus its
/// position, and logs the bytes sent and the number of `init` runs.
struct EchoPort {
    sent: Rc<RefCell<Vec<u8>>>,
    inits: Rc<RefCell<usize>>,
}

impl UsiPort<RoleSlave> for EchoPort {
    fn complete(&mut self, _driver: &mut MicroSPI<RoleSlave>, first: UsiAction) -> u8 {
        match first {
            Write(Data, data) => {
                let mut sent = self.sent.borrow_mut();
                sent.push(data);
                !data.wrapping_add(sent.len() as u8)
            }
            _ => {
                *self.inits.borrow_mut() += 1;
                0
            }
        }
    }
}

fn echo_link() -> (SpiLink<RoleSlave, EchoPort>, Rc<RefCell<Vec<u8>>>, Rc<RefCell<usize>>) {
    let sent = Rc::new(RefCell::new(vec![]));
    let inits = Rc::new(RefCell::new(0));
    let port = EchoPort { sent: sent.clone(), inits: inits.clone() };
    (SpiLink::new(port), sent, inits)
}

#[test]
fn read_sends_zeros_and_keeps_replies_in_order() {
    let (mut link, sent, inits) = echo_link();
    link.init();
    let mut buf = [0xaau8; 3];
    let r: Result<usize, Infallible> = link.read(&mut buf);
    assert_eq!(r, Ok(3));
    assert_eq!(*sent.borrow(), vec![0, 0, 0]);
    assert_eq!(buf, [!1u8, !2u8, !3u8]);
    assert_eq!(*inits.borrow(), 1);
}

#[test]
fn write_sends_every_byte_in_order() {
    let (mut link, sent, inits) = echo_link();
    let r: Result<usize, Infallible> = link.write(b"bonanza!\n\r\0");
    assert_eq!(r, Ok(11));
    assert_eq!(*sent.borrow(), b"bonanza!\n\r\0".to_vec());
    assert_eq!(*inits.borrow(), 0);
}

#[test]
fn empty_read_and_write_do_nothing() {
    let (mut link, sent, inits) = echo_link();
    let mut buf: [u8; 0] = [];
    assert_eq!(link.read(&mut buf), Ok(0));
    assert_eq!(link.write(&[]), Ok(0));
    assert!(sent.borrow().is_empty());
    assert_eq!(*inits.borrow(), 0);
}

/// A simulated USI that performs the master's accesses; `replies` are the
/// bytes the peer shifts in, one per exchange.
struct SimPort {
    usi: SimUsi,
    replies: Vec<u8>,
}

impl UsiPort<RoleMaster> for SimPort {
    fn complete(&mut self, driver: &mut MicroSPI<RoleMaster>, first: UsiAction) -> u8 {
        if let Write(Data, _) = first {
            self.usi.peer = self.replies.remove(0);
        }
        let (end, _) = drive(&mut self.usi, driver, first);
        match end {
            Received(b) => b,
            _ => 0,
        }
    }
}

#[test]
fn link_over_simulated_usi_writes_and_reads() {
    let port = SimPort { usi: SimUsi::new(0), replies: vec![1, 2, 3, 0x3a, 0x5c] };
    let mut link = SpiLink::<RoleMaster, SimPort>::new(port);
    link.init();
    let w: Result<usize, Infallible> = link.write(&[0x10, 0x20, 0x30]);
    assert_eq!(w, Ok(3));
    let mut buf = [0u8; 2];
    let r: Result<usize, Infallible> = link.read(&mut buf);
    assert_eq!(r, Ok(2));
    assert_eq!(buf, [0x3a, 0x5c]);
}

#[test]
fn link_exchange_returns_peer_byte() {
    let port = SimPort { usi: SimUsi::new(0), replies: vec![0xc3] };
    let mut link = SpiLink::<RoleMaster, SimPort>::new(port);
    link.init();
    assert_eq!(link.exchange(0x81), 0xc3);
}
