//! Interrupts, timers, sheaves, macro errors.

use rblk::error::{Errno, EINVAL, EIO, ENOMEM};
use rblk::hrtimer::{
    Borrower, HrTimer, HrTimerCallback, HrTimerHandle, HrTimerPointer, HrTimerRestart, Owner,
    RawHrTimerCallback, ScopedHrTimerPointer, UnsafeHrTimerPointer,
};
use rblk::macros::{ok_or_compile_error, MacroError};
use rblk::mm::sheaf::{CacheId, KMemCache, KMemCacheHandle, SBox};
use rblk::pci::irq::{Device, IrqRequest, IrqType, IrqTypes, VectorRequest};
use std::cell::Cell;

const DEVICE: Device = Device { id: 3 };

fn flags_of(types: IrqTypes) -> u32 {
    let seen = Cell::new(0);
    let _ = DEVICE.alloc_irq_vectors(1, 1, types, |request| {
        seen.set(request.flags);
        1
    });
    seen.get()
}

#[test]
fn types_of_interrupts_combine() {
    assert_eq!(flags_of(IrqTypes::default()), 0x80);
    assert_eq!(flags_of(IrqTypes::all()), 0x87);
    assert_eq!(flags_of(IrqTypes::default().with(IrqType::Msi).with(IrqType::MsiX)), 0x86);
    assert_eq!(flags_of(IrqTypes::default().with(IrqType::Intx)), 0x81);
}

#[test]
fn vectors_are_allocated() {
    let (_, vectors) = DEVICE.alloc_irq_vectors(1, 32, IrqTypes::all(), |request| {
        assert_eq!(
            request,
            VectorRequest { min_vecs: 1, max_vecs: 32, flags: 0x87, affinity: None }
        );
        2
    })
    .unwrap();
    assert_eq!(vectors.len(), 2);
    assert_eq!(vectors.nth(1).unwrap().index(), 1);
    assert!(vectors.nth(2).is_none());
    let mut iter = vectors.iter();
    assert_eq!(iter.size_hint(), (2, Some(2)));
    assert_eq!(iter.next().unwrap().index(), 0);
    assert_eq!(iter.next().unwrap().index(), 1);
    assert!(iter.next().is_none());
    assert_eq!(iter.size_hint(), (0, Some(0)));
    let spread = DEVICE.alloc_irq_vectors_affinity(1, 8, IrqTypes::default(), 1, 0, |request| {
        assert_eq!((request.flags, request.affinity), (0x88, Some((1, 0))));
        8
    });
    assert_eq!(spread.unwrap().1.len(), 8);
    let failed = DEVICE.alloc_irq_vectors(1, 8, IrqTypes::all(), |_| -12);
    assert_eq!(failed.err(), Some(Errno(ENOMEM)));
}

#[test]
fn vectors_are_given_back_with_the_device() {
    let all = IrqTypes::all();
    let kept = Cell::new(0);
    let mut freed = vec![];
    let vectors = DEVICE.alloc_irq_vectors_devres(
        1,
        4,
        all,
        |_| 4,
        |device| {
            kept.set(device);
            Ok(())
        },
        &mut freed,
    );
    assert_eq!(vectors.unwrap().len(), 4);
    assert_eq!(kept.get(), 3);
    let failed = DEVICE.alloc_irq_vectors_devres(1, 4, all, |_| -22, |_| Ok(()), &mut freed);
    assert_eq!(failed.err(), Some(Errno(EINVAL)));
    assert!(freed.is_empty());
    let unkept = |_| Err(Errno(ENOMEM));
    let failed = DEVICE.alloc_irq_vectors_devres(1, 4, all, |_| 4, unkept, &mut freed);
    assert_eq!(failed.err(), Some(Errno(ENOMEM)));
    assert_eq!(freed, vec![3]);
}

#[test]
fn plain_allocations_are_spread_without_exceptions() {
    let types = IrqTypes::default().with(IrqType::Msi).with(IrqType::MsiX);
    let asked = Cell::new(None);
    let allocate = |request| {
        asked.set(Some(request));
        3
    };
    let (_, plain) = DEVICE.alloc_irq_vectors(1, 4, types, &allocate).unwrap();
    let request = asked.take().unwrap();
    let (_, spread) = DEVICE.alloc_irq_vectors_affinity(1, 4, types, 0, 0, &allocate).unwrap();
    assert_eq!(asked.take(), Some(request));
    assert_eq!(plain.len(), spread.len());
    assert_eq!(request.flags & 0x7, 0x6);
}

#[test]
fn released_vectors_are_freed_once() {
    let mut freed = vec![];
    let allocated = DEVICE.alloc_irq_vectors(1, 8, IrqTypes::all(), |_| 2);
    let (registration, vectors) = allocated.unwrap();
    assert_eq!(vectors.len(), 2);
    assert!(freed.is_empty());
    registration.release(&mut freed);
    assert_eq!(freed, vec![3]);
}

#[test]
fn handlers_are_registered_for_vectors() {
    let vectors = DEVICE.alloc_irq_vectors(1, 4, IrqTypes::all(), |_| 4).unwrap().1;
    let vector = vectors.nth(2).unwrap();
    let lookup = |device: usize, vector: u32| device as i32 * 10 + vector as i32;
    assert_eq!(vector.try_into(lookup), Ok(IrqRequest { device: 3, irq: 32 }));
    let seen = Cell::new((0, 0u64, "", 0u8));
    let register = |request: IrqRequest, flags: u64, name: &'static str, handler: u8| {
        seen.set((request.irq, flags, name, handler));
        Ok(handler + 1)
    };
    assert_eq!(DEVICE.request_irq(vector, 0x80, "disk", 7, lookup, register), Ok(8));
    assert_eq!(seen.get(), (32, 0x80, "disk", 7));
    let failed = DEVICE.request_irq(vector, 0x80, "disk", 7, |_, _| -5, register);
    assert_eq!(failed, Err(Errno(EIO)));
    let refuse = |request: IrqRequest, _: u64, _: &'static str, _: u8| -> Result<u8, Errno> {
        assert_eq!(request.irq, 32);
        Err(Errno(ENOMEM))
    };
    let failed = DEVICE.request_threaded_irq(vector, 0, "disk", 7, lookup, refuse);
    assert_eq!(failed, Err(Errno(ENOMEM)));
}

#[test]
fn timers_run_and_restart() {
    let mut timer = HrTimer::new();
    assert!(!timer.active());
    timer.start(10);
    assert!(timer.active());
    timer.expire();
    timer.finish(HrTimerRestart::Restart);
    assert!(timer.active());
    timer.expire();
    timer.start(20);
    timer.finish(HrTimerRestart::NoRestart);
    assert!(timer.active());
    assert!(timer.cancel());
    assert!(!timer.active());
    assert!(!timer.cancel());
    assert_eq!(HrTimerRestart::NoRestart.into_c(), 0);
    assert_eq!(HrTimerRestart::Restart.into_c(), 1);
}

struct Ticker;

impl HrTimerCallback for Ticker {
    type Context = u32;

    fn run(&mut self, context: &mut u32) -> HrTimerRestart {
        *context += 1;
        if *context < 3 {
            HrTimerRestart::Restart
        } else {
            HrTimerRestart::NoRestart
        }
    }
}

#[test]
fn timers_are_handled() {
    let mut handle = Owner { inner: HrTimer::new() }.start(5);
    assert!(handle.inner.active());
    assert!(handle.cancel());
    assert!(!handle.cancel());
    let mut timer = HrTimer::new();
    let mut handle = Borrower { inner: &mut timer }.start(5);
    assert!(handle.cancel());
    assert!(!timer.active());
    assert_eq!(Borrower { inner: &mut timer }.start_scoped(5, |timer| timer.active()), true);
    assert!(!timer.active());
    let mut ticks = 0;
    let mut results = vec![];
    for _ in 0..3 {
        results.push(Ticker.run_raw(&mut ticks));
    }
    assert_eq!(results, vec![1, 1, 0]);
}

#[test]
fn sheaves_hand_out_their_objects() {
    let cache = CacheId { id: 9 };
    let handle = KMemCacheHandle::<u32>::new(4, 16, Some(cache)).unwrap();
    let mut sheaf = handle.sheaf(2, Some(2)).unwrap();
    let mut object = sheaf.alloc_object().unwrap();
    assert_eq!(*object.get(), 0);
    *object.get_mut() = 7;
    assert_eq!(SBox::static_from_ptr(cache, object.into_ptr()).into_ptr(), 7);
    assert!(sheaf.alloc_object().is_some());
    assert!(sheaf.alloc_object().is_none());
    assert_eq!(sheaf.refill(3, -12, 3), Err(Errno(ENOMEM)));
    assert!(sheaf.alloc_object().is_none());
    assert_eq!(sheaf.refill(3, 0, 16), Ok(()));
    assert_eq!(sheaf.refill(3, 0, 20), Ok(()));
    assert_eq!(sheaf.return_refill(), (cache, 16));
    let fixed = KMemCache::<u64>::from_raw(cache);
    assert_eq!(fixed.sheaf(1, None).err(), Some(Errno(ENOMEM)));
    assert!(fixed.sheaf(1, Some(4)).is_ok());
    assert_eq!(KMemCacheHandle::<u32>::new(4, 16, None).err(), Some(Errno(ENOMEM)));
    if usize::BITS == 64 {
        let size = u32::MAX as usize + 1;
        assert_eq!(fixed.sheaf(size, None).err(), Some(Errno(EINVAL)));
        assert_eq!(KMemCacheHandle::<u32>::new(size, 16, None).err(), Some(Errno(EINVAL)));
    }
}

fn syn_error(message: &str) -> syn::Error {
    syn::Error::new(proc_macro2::Span::call_site(), message)
}

#[test]
fn macro_errors_are_combined() {
    let mut error = MacroError::none();
    assert!(error.tokens().is_none());
    error.combine(MacroError::none());
    assert!(error.tokens().is_none());
    error.combine(MacroError::from(syn_error("first")));
    error.combine(MacroError::from(syn_error("second")));
    error.combine(MacroError::none());
    let tokens = error.tokens().unwrap();
    assert_eq!(tokens.clone().into_iter().count(), 16);
    let first = MacroError::from(syn_error("first")).tokens().unwrap().to_string();
    let second = MacroError::from(syn_error("second")).tokens().unwrap().to_string();
    assert_eq!(tokens.to_string(), format!("{first} {second}"));
    assert!(first.contains("\"first\"") && !first.contains("\"second\""));
}

#[test]
fn expansions_are_passed_on() {
    let stream: proc_macro2::TokenStream = "struct A ;".parse().unwrap();
    assert_eq!(ok_or_compile_error(Ok(stream)).to_string(), "struct A ;");
    let stream = ok_or_compile_error(Err(syn_error("wrong")));
    let expected = MacroError::from(syn_error("wrong")).tokens().unwrap();
    assert_eq!(stream.to_string(), expected.to_string());
    let texts: Vec<String> = stream.into_iter().map(|token| token.to_string()).collect();
    assert_eq!(texts[..7], [":", ":", "core", ":", ":", "compile_error", "!"]);
    assert_eq!(texts.len(), 8);
    assert!(texts[7].starts_with('{') && texts[7].contains("\"wrong\"") && texts[7].ends_with('}'));
}
