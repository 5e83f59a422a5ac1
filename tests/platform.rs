use kernel::sbi::{
    call_result, ExtAvail, ImplId, Reason, SpecVersion, StandardError, Type, VendorId,
};
use kernel::sync::{AcquireError, Token, TokenCell, TokenHolder, INVALID_HART_ID};

#[test]
fn token_is_exclusive() {
    let mut holder = TokenHolder::new();
    assert_eq!(holder.holder(), INVALID_HART_ID);
    let token = Token::acquire(&mut holder, 0).unwrap();
    assert_eq!(holder.holder(), 0);
    assert_eq!(Token::acquire(&mut holder, 1).err(), Some(AcquireError::Held));
    assert_eq!(Token::acquire(&mut holder, 0).err(), Some(AcquireError::Reentrant));
    assert_eq!(holder.holder(), 0);
    token.release(&mut holder);
    assert_eq!(holder.holder(), INVALID_HART_ID);
    let token = Token::acquire(&mut holder, 1).unwrap();
    assert_eq!(holder.holder(), 1);
    token.release(&mut holder);
}

#[test]
fn token_cell_borrows() {
    let mut holder = TokenHolder::new();
    let mut token = Token::acquire(&mut holder, 3).unwrap();
    let mut cell = TokenCell::new(5u32);
    assert_eq!(*cell.borrow(&token), 5);
    *cell.borrow_mut(&mut token) += 1;
    assert_eq!(*cell.borrow(&token), 6);
    token.release(&mut holder);
}

#[test]
fn sbi_errors() {
    assert_eq!(call_result(0, 42), Ok(42));
    assert_eq!(call_result(-1, 0), Err(StandardError::Failed));
    assert_eq!(call_result(-2, 0), Err(StandardError::NotSupported));
    assert_eq!(call_result(-3, 0), Err(StandardError::InvalidParam));
    assert_eq!(call_result(-4, 0), Err(StandardError::Denied));
    assert_eq!(call_result(-5, 0), Err(StandardError::InvalidAddr));
    assert_eq!(call_result(-6, 0), Err(StandardError::AlreadyAvailable));
    assert_eq!(call_result(-7, 0), Err(StandardError::AlreadyStarted));
    assert_eq!(call_result(-8, 0), Err(StandardError::AlreadyStopped));
    assert_eq!(call_result(-9, 0), Err(StandardError::Unknown));
    assert_eq!(call_result(7, 0), Err(StandardError::Unknown));
}

#[test]
fn sbi_values() {
    let v = SpecVersion::new(0x0100_0002);
    assert_eq!((v.major(), v.minor()), (1, 2));
    let v = SpecVersion::new(0xff00_0003);
    assert_eq!((v.major(), v.minor()), (0x7f, 3));
    let id = VendorId::new((5 << 7) | 0x6a);
    assert_eq!((id.bank(), id.offset()), (5, 0x6a));
    let id = VendorId::new(0x80);
    assert_eq!((id.bank(), id.offset()), (1, 0));
    assert_eq!(ImplId::from_id(1), ImplId::OpenSbi);
    assert_eq!(ImplId::from_id(4), ImplId::RustSbi);
    assert_eq!(ImplId::from_id(99), ImplId::Unknown(99));
    assert_eq!(ExtAvail::from_value(0), ExtAvail::Unavailable);
    assert_eq!(ExtAvail::from_value(3), ExtAvail::Available(3));
    assert_eq!(Type::Shutdown.value(), 0);
    assert_eq!(Type::WarmReboot.value(), 2);
    assert_eq!(Reason::SystemFailure.value(), 1);
    assert_eq!(Reason::NoReason.value(), 0);
}
