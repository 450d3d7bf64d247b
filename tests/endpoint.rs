use oscp::frame::FRAME_OVERHEAD;
use oscp::{Addr, Endpoint, Error, Flags, Packet, PacketType, Raw, State};

fn raw(bytes: &[u8]) -> Raw {
    heapless::Vec::from_slice(bytes).unwrap()
}

#[test]
fn controller_sends_command_peripheral_assembles_it() {
    let controller = Endpoint::controller();
    assert_eq!(controller.addr(), Addr(0));
    assert_eq!(controller.state(), State::Ready);
    let frame = controller.send_command(Addr(5), &raw(&[])).ok().unwrap();
    let mut peripheral = Endpoint::peripheral(Addr(5)).unwrap();
    let mut got = None;
    for (i, b) in frame.iter().enumerate() {
        match peripheral.push_byte(*b) {
            Ok(None) => assert!(i + 1 < frame.len()),
            Ok(Some(p)) => {
                assert_eq!(i + 1, FRAME_OVERHEAD);
                got = Some(p);
            }
            Err(e) => panic!("unexpected error {:?}", e),
        }
    }
    let p = got.unwrap();
    assert_eq!(p.typ, PacketType::Command);
    assert_eq!(p.target, Addr(5));
    assert_eq!(p.data.len(), 0);
}

#[test]
fn waiting_endpoint_is_not_ready() {
    let peripheral = Endpoint::peripheral(Addr(9)).unwrap();
    assert_eq!(peripheral.state(), State::Waiting);
    let p = Packet::new(PacketType::MidiEvent, Flags::empty(), Addr(0), raw(&[1, 2]));
    assert_eq!(peripheral.send(&p).err(), Some(Error::NotReady));
    assert_eq!(peripheral.send_command(Addr(0), &raw(&[])).err(), Some(Error::NotReady));
}

#[test]
fn granted_peripheral_may_send() {
    let mut peripheral = Endpoint::peripheral(Addr(9)).unwrap();
    peripheral.set_state(State::Ready);
    let p = Packet::new(PacketType::MidiEvent, Flags::empty(), Addr(0), raw(&[1, 2]));
    assert_eq!(peripheral.send(&p).ok().unwrap(), p.frame_bytes());
}

#[test]
fn reserved_addresses_are_not_peripherals() {
    assert!(Endpoint::peripheral(Addr(0)).is_none());
    assert!(Endpoint::peripheral(Addr(255)).is_none());
    assert_eq!(Endpoint::peripheral(Addr(1)).unwrap().addr(), Addr(1));
    assert_eq!(Endpoint::peripheral(Addr(254)).unwrap().addr(), Addr(254));
}

#[test]
fn every_strict_prefix_is_pending() {
    let p = Packet::new(PacketType::MidiEvent, Flags::ignore(), Addr(3), raw(&[1, 2, 3, 4, 5]));
    let frame = p.frame_bytes();
    for k in 0..frame.len() {
        let mut e = Endpoint::peripheral(Addr(3)).unwrap();
        for b in &frame[..k] {
            assert!(matches!(e.push_byte(*b), Ok(None)));
        }
    }
}

#[test]
fn bytewise_and_whole_arrival_agree() {
    let p = Packet::new(PacketType::Raw, Flags::empty(), Addr(8), raw(&[7; 12]));
    let frame = p.frame_bytes();
    let mut e = Endpoint::controller();
    let mut frames = Vec::new();
    for b in &frame {
        // a would-block between bytes leaves the endpoint untouched
        if let Some(q) = e.push_byte(*b).ok().unwrap() {
            frames.push(q);
        }
    }
    assert_eq!(frames.len(), 1);
    let whole = Packet::read_raw(&frame).ok().unwrap();
    assert_eq!(frames[0].typ, whole.typ);
    assert_eq!(frames[0].flags, whole.flags);
    assert_eq!(frames[0].target, whole.target);
    assert_eq!(frames[0].data.as_slice(), whole.data.as_slice());
    assert_eq!(whole.data.as_slice(), &[7; 12]);
}

#[test]
fn corrupted_frame_reports_parse_error_then_recovers() {
    let p = Packet::new(PacketType::Command, Flags::empty(), Addr(4), raw(&[1, 2]));
    let mut frame = p.frame_bytes();
    let last = frame.len() - 1;
    frame[last] ^= 0x01;
    let mut e = Endpoint::controller();
    for b in &frame[..last] {
        assert!(matches!(e.push_byte(*b), Ok(None)));
    }
    assert_eq!(e.push_byte(frame[last]).err(), Some(Error::ParseError));
    let good = p.frame_bytes();
    let mut out = None;
    for b in &good {
        if let Some(q) = e.push_byte(*b).ok().unwrap() {
            out = Some(q);
        }
    }
    assert_eq!(out.unwrap().data.as_slice(), &[1, 2]);
}

#[test]
fn overflow_is_reported_once_and_recovers() {
    let mut e = Endpoint::peripheral(Addr(6)).unwrap();
    let mut junk = vec![6u8, 0x01, 200, 0];
    junk.extend_from_slice(&[0u8; 36]);
    for b in &junk {
        assert!(matches!(e.push_byte(*b), Ok(None)));
    }
    assert_eq!(e.push_byte(0).err(), Some(Error::Overflow));
    let p = Packet::new(PacketType::MidiEvent, Flags::empty(), Addr(6), raw(&[3]));
    let mut errors = 0;
    let mut frames = 0;
    for b in &p.frame_bytes() {
        match e.push_byte(*b) {
            Ok(Some(q)) => {
                assert_eq!(q.data.as_slice(), &[3]);
                frames += 1;
            }
            Ok(None) => {}
            Err(_) => errors += 1,
        }
    }
    assert_eq!((errors, frames), (0, 1));
}

#[test]
fn read_failure_drops_partial_frame() {
    let p = Packet::new(PacketType::Command, Flags::empty(), Addr(4), raw(&[9]));
    let frame = p.frame_bytes();
    let mut e = Endpoint::controller();
    for b in &frame[..3] {
        assert!(matches!(e.push_byte(*b), Ok(None)));
    }
    assert_eq!(e.read_failed(), Error::IoError);
    let mut out = None;
    for b in &frame {
        if let Some(q) = e.push_byte(*b).ok().unwrap() {
            out = Some(q);
        }
    }
    assert_eq!(out.unwrap().target, Addr(4));
}

#[test]
fn clear_cancels_frame_in_progress() {
    let p = Packet::new(PacketType::Command, Flags::empty(), Addr(4), raw(&[]));
    let frame = p.frame_bytes();
    let mut e = Endpoint::controller();
    assert!(matches!(e.push_byte(frame[0]), Ok(None)));
    e.clear();
    let results: Vec<bool> = frame.iter().map(|b| matches!(e.push_byte(*b), Ok(Some(_)))).collect();
    assert_eq!(results.iter().filter(|x| **x).count(), 1);
    assert!(results[frame.len() - 1]);
}

#[test]
fn whole_frame_at_once_matches_bytewise() {
    let p = Packet::new(PacketType::MidiEvent, Flags::ignore(), Addr(11), raw(&[5, 6]));
    let frame = p.frame_bytes();
    let mut e = Endpoint::peripheral(Addr(11)).unwrap();
    let (used, r) = e.push_bytes(&frame);
    assert_eq!(used, frame.len());
    let q = r.ok().unwrap().unwrap();
    assert_eq!(q.typ, PacketType::MidiEvent);
    assert_eq!(q.flags, Flags::ignore());
    assert_eq!(q.target, Addr(11));
    assert_eq!(q.data.as_slice(), &[5, 6]);
}

#[test]
fn push_bytes_stops_after_first_frame() {
    let p = Packet::new(PacketType::Command, Flags::empty(), Addr(2), raw(&[1]));
    let mut two = p.frame_bytes();
    two.extend(p.frame_bytes());
    let mut e = Endpoint::controller();
    let (used, r) = e.push_bytes(&two);
    assert_eq!(used, 9);
    assert!(matches!(r, Ok(Some(_))));
    let (used2, r2) = e.push_bytes(&two[used..]);
    assert_eq!(used2, 9);
    assert!(matches!(r2, Ok(Some(_))));
    let (used3, r3) = e.push_bytes(&two[..4]);
    assert_eq!(used3, 4);
    assert!(matches!(r3, Ok(None)));
}
