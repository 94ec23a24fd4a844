use abscissa::application::lock::{poisoned, reading, storing, writing, Lock};
use abscissa::error::FrameworkError;
use std::sync::atomic::{AtomicI64, AtomicUsize, Ordering};
use std::sync::{Arc, Mutex, PoisonError, RwLock};
use tokio::runtime::{Builder, Runtime};
use tokio::task::JoinHandle;

fn pool(threads: usize) -> Runtime {
    Builder::new_multi_thread().worker_threads(2).max_blocking_threads(threads).build().unwrap()
}

fn join_all<T>(runtime: &Runtime, handles: Vec<JoinHandle<T>>) -> Vec<T> {
    let mut out = Vec::new();
    for handle in handles {
        out.push(runtime.block_on(handle).unwrap());
    }
    out
}

fn leak<A>() -> &'static Lock<A> {
    Box::leak(Box::new(Lock::new()))
}

#[test]
fn lock_starts_empty_and_set_fills_it() {
    let lock: &'static Lock<u32> = leak();
    assert!(lock.read().unwrap().get().is_none());
    assert_eq!(lock.set(5), Ok(()));
    assert_eq!(lock.read().unwrap().get(), Some(&5));
    assert_eq!(lock.write().unwrap().get(), Some(&5));
}

#[test]
fn default_lock_is_empty() {
    let lock: &'static Lock<String> = Box::leak(Box::new(Lock::default()));
    assert!(lock.read().unwrap().get().is_none());
    assert!(lock.write().unwrap().get_mut().is_none());
}

#[test]
fn set_replaces_what_was_there() {
    let lock: &'static Lock<&'static str> = leak();
    lock.set("one").unwrap();
    lock.set("two").unwrap();
    assert_eq!(lock.read().unwrap().get(), Some(&"two"));
}

#[test]
fn writer_changes_are_seen_by_later_readers() {
    let lock: &'static Lock<Vec<u8>> = leak();
    lock.set(vec![1]).unwrap();
    {
        let mut writer = lock.write().unwrap();
        writer.get_mut().unwrap().push(2);
    }
    assert_eq!(lock.read().unwrap().get(), Some(&vec![1, 2]));
}

#[test]
fn many_readers_hold_the_lock_together() {
    let lock: &'static Lock<u8> = leak();
    lock.set(1).unwrap();
    let first = lock.read().unwrap();
    let second = lock.read().unwrap();
    assert_eq!(first.get(), second.get());
}

#[test]
fn guards_release_the_lock_when_they_go_out_of_scope() {
    let lock: &'static Lock<u8> = leak();
    lock.set(1).unwrap();
    {
        let _reader = lock.read().unwrap();
    }
    {
        let mut writer = lock.write().unwrap();
        *writer.get_mut().unwrap() = 2;
    }
    assert_eq!(lock.set(3), Ok(()));
    assert_eq!(lock.read().unwrap().get(), Some(&3));
}

#[test]
fn poisoned_lock_fails_every_access() {
    let lock: &'static Lock<u8> = leak();
    lock.set(1).unwrap();
    let runtime = pool(1);
    let crashed = runtime.block_on(runtime.spawn_blocking(move || {
        let _writer = lock.write().unwrap();
        panic!("crash while writing");
    }));
    assert!(crashed.is_err());
    assert!(matches!(lock.read(), Err(FrameworkError::LockPoisoned)));
    assert!(matches!(lock.write(), Err(FrameworkError::LockPoisoned)));
    assert_eq!(lock.set(2), Err(FrameworkError::LockPoisoned));
}

#[test]
fn poison_error_becomes_lock_poisoned() {
    let mutex = Arc::new(Mutex::new(0u8));
    let other = mutex.clone();
    let runtime = pool(1);
    let _ = runtime.block_on(runtime.spawn_blocking(move || {
        let _guard = other.lock().unwrap();
        panic!("crash");
    }));
    match mutex.lock() {
        Ok(_) => panic!("the mutex should be poisoned"),
        Err(e) => assert_eq!(poisoned(e), FrameworkError::LockPoisoned),
    }
    assert_eq!(poisoned(PoisonError::new(7u8)), FrameworkError::LockPoisoned);
}

#[test]
fn fifty_readers_see_the_same_whole_value() {
    let lock: &'static Lock<(u64, u64)> = leak();
    {
        // the state is only visible once the writer of boot lets go
        lock.set((0, 0)).unwrap();
        let mut writer = lock.write().unwrap();
        let state = writer.get_mut().unwrap();
        state.0 = 1234;
        state.1 = 1234 * 2;
    }
    let runtime = pool(50);
    let mut handles = Vec::new();
    for _ in 0..50 {
        handles.push(runtime.spawn_blocking(move || {
            let reader = lock.read().unwrap();
            *reader.get().unwrap()
        }));
    }
    let seen = join_all(&runtime, handles);
    assert_eq!(seen.len(), 50);
    for value in seen {
        assert_eq!(value, (1234, 2468));
    }
}

#[test]
fn readers_never_see_a_torn_value_while_a_writer_runs() {
    let lock: &'static Lock<(u64, u64)> = leak();
    lock.set((0, 0)).unwrap();
    let runtime = pool(9);
    let mut handles = Vec::new();
    handles.push(runtime.spawn_blocking(move || {
        for i in 1..=200u64 {
            let mut writer = lock.write().unwrap();
            let state = writer.get_mut().unwrap();
            state.0 = i;
            std::hint::spin_loop();
            state.1 = i * 2;
        }
    }));
    for _ in 0..8 {
        handles.push(runtime.spawn_blocking(move || {
            for _ in 0..200 {
                let reader = lock.read().unwrap();
                let (a, b) = *reader.get().unwrap();
                assert_eq!(b, a * 2);
            }
        }));
    }
    join_all(&runtime, handles);
    assert_eq!(lock.read().unwrap().get(), Some(&(200, 400)));
}

#[test]
fn writer_and_readers_never_overlap() {
    static READERS: AtomicI64 = AtomicI64::new(0);
    static WRITERS: AtomicI64 = AtomicI64::new(0);
    static VIOLATIONS: AtomicUsize = AtomicUsize::new(0);
    let lock: &'static Lock<u64> = leak();
    lock.set(0).unwrap();
    let runtime = pool(11);
    let mut handles = Vec::new();
    handles.push(runtime.spawn_blocking(move || {
        for _ in 0..100 {
            let mut writer = lock.write().unwrap();
            let before = WRITERS.fetch_add(1, Ordering::SeqCst);
            if before != 0 || READERS.load(Ordering::SeqCst) != 0 {
                VIOLATIONS.fetch_add(1, Ordering::SeqCst);
            }
            *writer.get_mut().unwrap() += 1;
            std::hint::spin_loop();
            WRITERS.fetch_sub(1, Ordering::SeqCst);
        }
    }));
    for _ in 0..10 {
        handles.push(runtime.spawn_blocking(move || {
            for _ in 0..100 {
                let reader = lock.read().unwrap();
                READERS.fetch_add(1, Ordering::SeqCst);
                if WRITERS.load(Ordering::SeqCst) != 0 {
                    VIOLATIONS.fetch_add(1, Ordering::SeqCst);
                }
                let _ = reader.get();
                std::hint::spin_loop();
                READERS.fetch_sub(1, Ordering::SeqCst);
            }
        }));
    }
    join_all(&runtime, handles);
    assert_eq!(VIOLATIONS.load(Ordering::SeqCst), 0);
    assert_eq!(lock.read().unwrap().get(), Some(&100));
}

#[test]
fn reading_wraps_the_guard_that_was_acquired() {
    let raw: &'static RwLock<Option<u8>> = Box::leak(Box::new(RwLock::new(Some(5))));
    let reader = reading(raw.read()).unwrap();
    assert_eq!(reader.get(), Some(&5));
    // the reader holds the lock for reading: another reader gets in, a writer does not
    assert!(raw.try_read().is_ok());
    assert!(raw.try_write().is_err());
    drop(reader);
    assert!(raw.try_write().is_ok());
}

#[test]
fn writing_wraps_the_guard_that_was_acquired() {
    let raw: &'static RwLock<Option<u8>> = Box::leak(Box::new(RwLock::new(Some(5))));
    let mut writer = writing(raw.write()).unwrap();
    assert_eq!(writer.get(), Some(&5));
    *writer.get_mut().unwrap() = 6;
    assert!(raw.try_read().is_err());
    drop(writer);
    assert_eq!(*raw.read().unwrap(), Some(6));
}

#[test]
fn storing_installs_the_application_under_the_guard() {
    let raw: RwLock<Option<u8>> = RwLock::new(None);
    assert_eq!(storing(raw.write(), 7), Ok(()));
    assert_eq!(*raw.read().unwrap(), Some(7));
    assert_eq!(storing(raw.write(), 8), Ok(()));
    assert_eq!(*raw.read().unwrap(), Some(8));
}

#[test]
fn poisoned_outcomes_become_lock_poisoned() {
    let raw: &'static RwLock<Option<u8>> = Box::leak(Box::new(RwLock::new(Some(1))));
    let read_outcome = raw.read().map_err(|e| PoisonError::new(e.into_inner()));
    let guard = read_outcome.unwrap();
    assert!(matches!(reading(Err(PoisonError::new(guard))), Err(FrameworkError::LockPoisoned)));
    let guard = raw.write().unwrap();
    assert!(matches!(writing(Err(PoisonError::new(guard))), Err(FrameworkError::LockPoisoned)));
    let guard = raw.write().unwrap();
    assert_eq!(storing(Err(PoisonError::new(guard)), 9), Err(FrameworkError::LockPoisoned));
    assert_eq!(*raw.read().unwrap(), Some(1));
}
