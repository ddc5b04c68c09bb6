use std::sync::Mutex;

use tavoo::ring_buf::RingBuf;

#[test]
fn test_ring_buf() {
    let mut buf = RingBuf::<u32, 4>::new();
    assert!(buf.is_empty());
    assert_eq!(buf.len(), 0);
    let mut iter = buf.iter();
    assert_eq!(iter.len(), 0);
    assert_eq!(iter.next(), None);
    assert_eq!(iter.len(), 0);
    assert_eq!(iter.next(), None);
    assert_eq!(buf.as_slices(), (&[][..], &[][..]));

    buf.push(0);
    buf.push(1);
    buf.push(2);
    buf.push(3);
    assert_eq!(buf.len(), 4);
    let mut iter = buf.iter();
    assert_eq!(iter.len(), 4);
    assert_eq!(iter.next(), Some(&0));
    assert_eq!(iter.len(), 3);
    assert_eq!(iter.next(), Some(&1));
    assert_eq!(iter.len(), 2);
    assert_eq!(iter.next(), Some(&2));
    assert_eq!(iter.len(), 1);
    assert_eq!(iter.next(), Some(&3));
    assert_eq!(iter.len(), 0);
    assert_eq!(iter.next(), None);
    assert_eq!(iter.len(), 0);
    assert_eq!(iter.next(), None);
    assert_eq!(buf.as_slices(), (&[0, 1, 2, 3][..], &[][..]));

    // overwrite
    buf.push(4);
    assert_eq!(buf.len(), 4);
    let mut iter = buf.iter();
    assert_eq!(iter.len(), 4);
    assert_eq!(iter.next(), Some(&1));
    assert_eq!(iter.len(), 3);
    assert_eq!(iter.next(), Some(&2));
    assert_eq!(iter.len(), 2);
    assert_eq!(iter.next(), Some(&3));
    assert_eq!(iter.len(), 1);
    assert_eq!(iter.next(), Some(&4));
    assert_eq!(iter.len(), 0);
    assert_eq!(iter.next(), None);
    assert_eq!(iter.len(), 0);
    assert_eq!(iter.next(), None);
    assert_eq!(buf.as_slices(), (&[1, 2, 3][..], &[4][..]));

    buf.clear();
    assert!(buf.is_empty());
    assert_eq!(buf.len(), 0);
    let mut iter = buf.iter();
    assert_eq!(iter.len(), 0);
    assert_eq!(iter.next(), None);
    assert_eq!(iter.len(), 0);
    assert_eq!(iter.next(), None);
    assert_eq!(buf.as_slices(), (&[][..], &[][..]));
}

static DROPPED: Mutex<Vec<u32>> = Mutex::new(Vec::new());

struct Collector(u32);

impl Drop for Collector {
    fn drop(&mut self) {
        DROPPED.lock().unwrap().push(self.0);
    }
}

fn dropped() -> Vec<u32> {
    DROPPED.lock().unwrap().clone()
}

#[test]
fn test_ring_buf_drop() {
    DROPPED.lock().unwrap().clear();
    let _ = RingBuf::<Collector, 1>::new();
    assert_eq!(dropped(), vec![]);

    // plain drop
    DROPPED.lock().unwrap().clear();
    let mut buf = RingBuf::<Collector, 1>::new();
    buf.push(Collector(0));
    assert_eq!(dropped(), vec![]);
    drop(buf);
    assert_eq!(dropped(), vec![0]);

    // overwrite
    DROPPED.lock().unwrap().clear();
    let mut buf = RingBuf::<Collector, 1>::new();
    buf.push(Collector(0));
    assert_eq!(dropped(), vec![]);
    buf.push(Collector(1));
    assert_eq!(dropped(), vec![0]);
    drop(buf);
    assert_eq!(dropped(), vec![0, 1]);

    // clear
    DROPPED.lock().unwrap().clear();
    let mut buf = RingBuf::<Collector, 1>::new();
    buf.push(Collector(0));
    assert_eq!(dropped(), vec![]);
    buf.clear();
    assert_eq!(dropped(), vec![0]);
    drop(buf);
    assert_eq!(dropped(), vec![0]);

    // overwrite and clear
    DROPPED.lock().unwrap().clear();
    let mut buf = RingBuf::<Collector, 2>::new();
    buf.push(Collector(0));
    buf.push(Collector(1));
    buf.push(Collector(2));
    assert_eq!(dropped(), vec![0]);
    buf.clear();
    assert_eq!(dropped(), vec![0, 1, 2]);
    drop(buf);
    assert_eq!(dropped(), vec![0, 1, 2]);
}

#[test]
fn ring_buf_keeps_newest() {
    let mut buf = RingBuf::<u8, 3>::new();
    for x in 0..10u8 {
        buf.push(x);
    }
    let mut iter = buf.iter();
    assert_eq!(iter.next(), Some(&7));
    assert_eq!(iter.next(), Some(&8));
    assert_eq!(iter.next(), Some(&9));
    assert_eq!(iter.next(), None);
    let (a, b) = buf.as_slices();
    assert_eq!([a, b].concat(), vec![7, 8, 9]);
    let d: RingBuf<u8, 3> = RingBuf::default();
    assert!(d.is_empty());
}
