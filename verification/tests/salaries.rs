// The organisation of the salary example of "Scrap Your Boilerplate", without
// groups: five employees in two departments, one of them nested.

use scrapmetal::{
    Everything, Everywhere, EverywhereBut, GenericQuery, MutateEverything, MutateForAll, Mutation,
    Query, Term, TransformForAll, Transformation, Typed,
};

#[derive(Clone, Debug, PartialEq)]
struct Company(Vec<Department>);

#[derive(Clone, Debug, PartialEq)]
struct Department(Name, Manager, Vec<SubUnit>);

#[derive(Clone, Debug, PartialEq)]
enum SubUnit {
    Person(Employee),
    Department(Box<Department>),
}

#[derive(Clone, Debug, PartialEq)]
struct Employee(Person, Salary);

#[derive(Clone, Debug, PartialEq)]
struct Person(Name, Address);

#[derive(Clone, Debug, Default, PartialEq)]
struct Salary(f64);

type Manager = Employee;
type Name = &'static str;
type Address = &'static str;

impl Default for Company {
    fn default() -> Company {
        let ralf = Employee(Person("Ralf", "Amsterdam"), Salary(8000.0));
        let joost = Employee(Person("Joost", "Amsterdam"), Salary(1000.0));
        let marlow = Employee(Person("Marlow", "Cambridge"), Salary(2000.0));
        let blair = Employee(Person("Blair", "London"), Salary(100000.0));
        let jim = Employee(Person("Jim", "Portland"), Salary(3.0));
        Company(vec![
            Department(
                "Research",
                ralf,
                vec![
                    SubUnit::Person(joost),
                    SubUnit::Person(marlow),
                    SubUnit::Department(Box::new(Department("Funsies", jim, vec![]))),
                ],
            ),
            Department("Strategy", blair, vec![]),
        ])
    }
}

impl Typed for Company {}

impl Term for Company {
    fn map_one_transform<F, P>(self, f: &mut EverywhereBut<F, P>) -> Self
    where
        F: TransformForAll,
        P: GenericQuery<bool>,
    {
        Company(f.transform(self.0))
    }

    fn map_one_query<Q, R, F>(&self, q: &mut Everything<Q, R, F>, acc: R) -> R
    where
        Q: GenericQuery<R>,
        F: FnMut(R, R) -> R,
    {
        let r = q.query(&self.0);
        q.combine(acc, r)
    }

    fn map_one_mutation<M, R, F>(&mut self, m: &mut MutateEverything<M, R, F>, acc: R) -> R
    where
        M: MutateForAll<R>,
        F: FnMut(R, R) -> R,
    {
        let r = m.mutate(&mut self.0);
        m.combine(acc, r)
    }
}

impl Typed for Department {}

impl Term for Department {
    fn map_one_transform<F, P>(self, f: &mut EverywhereBut<F, P>) -> Self
    where
        F: TransformForAll,
        P: GenericQuery<bool>,
    {
        let name = f.transform(self.0);
        let mgr = f.transform(self.1);
        let units = f.transform(self.2);
        Department(name, mgr, units)
    }

    fn map_one_query<Q, R, F>(&self, q: &mut Everything<Q, R, F>, acc: R) -> R
    where
        Q: GenericQuery<R>,
        F: FnMut(R, R) -> R,
    {
        let r = q.query(&self.0);
        let acc = q.combine(acc, r);
        let r = q.query(&self.1);
        let acc = q.combine(acc, r);
        let r = q.query(&self.2);
        q.combine(acc, r)
    }

    fn map_one_mutation<M, R, F>(&mut self, m: &mut MutateEverything<M, R, F>, acc: R) -> R
    where
        M: MutateForAll<R>,
        F: FnMut(R, R) -> R,
    {
        let r = m.mutate(&mut self.0);
        let acc = m.combine(acc, r);
        let r = m.mutate(&mut self.1);
        let acc = m.combine(acc, r);
        let r = m.mutate(&mut self.2);
        m.combine(acc, r)
    }
}

impl Typed for SubUnit {}

impl Term for SubUnit {
    fn map_one_transform<F, P>(self, f: &mut EverywhereBut<F, P>) -> Self
    where
        F: TransformForAll,
        P: GenericQuery<bool>,
    {
        match self {
            SubUnit::Person(e) => SubUnit::Person(f.transform(e)),
            SubUnit::Department(d) => SubUnit::Department(f.transform(d)),
        }
    }

    fn map_one_query<Q, R, F>(&self, q: &mut Everything<Q, R, F>, acc: R) -> R
    where
        Q: GenericQuery<R>,
        F: FnMut(R, R) -> R,
    {
        let r = match *self {
            SubUnit::Person(ref e) => q.query(e),
            SubUnit::Department(ref d) => q.query(d),
        };
        q.combine(acc, r)
    }

    fn map_one_mutation<M, R, F>(&mut self, m: &mut MutateEverything<M, R, F>, acc: R) -> R
    where
        M: MutateForAll<R>,
        F: FnMut(R, R) -> R,
    {
        let r = match *self {
            SubUnit::Person(ref mut e) => m.mutate(e),
            SubUnit::Department(ref mut d) => m.mutate(d),
        };
        m.combine(acc, r)
    }
}

impl Typed for Employee {}

impl Term for Employee {
    fn map_one_transform<F, P>(self, f: &mut EverywhereBut<F, P>) -> Self
    where
        F: TransformForAll,
        P: GenericQuery<bool>,
    {
        Employee(f.transform(self.0), f.transform(self.1))
    }

    fn map_one_query<Q, R, F>(&self, q: &mut Everything<Q, R, F>, acc: R) -> R
    where
        Q: GenericQuery<R>,
        F: FnMut(R, R) -> R,
    {
        let r = q.query(&self.0);
        let acc = q.combine(acc, r);
        let r = q.query(&self.1);
        q.combine(acc, r)
    }

    fn map_one_mutation<M, R, F>(&mut self, m: &mut MutateEverything<M, R, F>, acc: R) -> R
    where
        M: MutateForAll<R>,
        F: FnMut(R, R) -> R,
    {
        let r = m.mutate(&mut self.0);
        let acc = m.combine(acc, r);
        let r = m.mutate(&mut self.1);
        m.combine(acc, r)
    }
}

impl Typed for Person {}

impl Term for Person {
    fn map_one_transform<F, P>(self, f: &mut EverywhereBut<F, P>) -> Self
    where
        F: TransformForAll,
        P: GenericQuery<bool>,
    {
        Person(f.transform(self.0), f.transform(self.1))
    }

    fn map_one_query<Q, R, F>(&self, q: &mut Everything<Q, R, F>, acc: R) -> R
    where
        Q: GenericQuery<R>,
        F: FnMut(R, R) -> R,
    {
        let r = q.query(&self.0);
        let acc = q.combine(acc, r);
        let r = q.query(&self.1);
        q.combine(acc, r)
    }

    fn map_one_mutation<M, R, F>(&mut self, m: &mut MutateEverything<M, R, F>, acc: R) -> R
    where
        M: MutateForAll<R>,
        F: FnMut(R, R) -> R,
    {
        let r = m.mutate(&mut self.0);
        let acc = m.combine(acc, r);
        let r = m.mutate(&mut self.1);
        m.combine(acc, r)
    }
}

impl Typed for Salary {}

impl Term for Salary {
    fn map_one_transform<F, P>(self, _: &mut EverywhereBut<F, P>) -> Self
    where
        F: TransformForAll,
        P: GenericQuery<bool>,
    {
        self
    }

    fn map_one_query<Q, R, F>(&self, _: &mut Everything<Q, R, F>, acc: R) -> R
    where
        Q: GenericQuery<R>,
        F: FnMut(R, R) -> R,
    {
        acc
    }

    fn map_one_mutation<M, R, F>(&mut self, _: &mut MutateEverything<M, R, F>, acc: R) -> R
    where
        M: MutateForAll<R>,
        F: FnMut(R, R) -> R,
    {
        acc
    }
}

trait Increase: Sized {
    fn increase(self, k: f64) -> Self;
}

impl Increase for Company {
    fn increase(self, k: f64) -> Company {
        Company(self.0.into_iter().map(|d| d.increase(k)).collect())
    }
}

impl Increase for Department {
    fn increase(self, k: f64) -> Department {
        Department(
            self.0,
            self.1.increase(k),
            self.2.into_iter().map(|s| s.increase(k)).collect(),
        )
    }
}

impl Increase for SubUnit {
    fn increase(self, k: f64) -> SubUnit {
        match self {
            SubUnit::Person(e) => SubUnit::Person(e.increase(k)),
            SubUnit::Department(d) => SubUnit::Department(Box::new(d.increase(k))),
        }
    }
}

impl Increase for Employee {
    fn increase(self, k: f64) -> Employee {
        Employee(self.0, self.1.increase(k))
    }
}

impl Increase for Salary {
    fn increase(self, k: f64) -> Salary {
        Salary(self.0 + k)
    }
}

fn increased() -> Company {
    Company(vec![
        Department(
            "Research",
            Employee(Person("Ralf", "Amsterdam"), Salary(8001.0)),
            vec![
                SubUnit::Person(Employee(Person("Joost", "Amsterdam"), Salary(1001.0))),
                SubUnit::Person(Employee(Person("Marlow", "Cambridge"), Salary(2001.0))),
                SubUnit::Department(Box::new(Department(
                    "Funsies",
                    Employee(Person("Jim", "Portland"), Salary(4.0)),
                    vec![],
                ))),
            ],
        ),
        Department(
            "Strategy",
            Employee(Person("Blair", "London"), Salary(100001.0)),
            vec![],
        ),
    ])
}

#[test]
fn company_increase_with_boilerplate() {
    let company = Company::default();
    let company = company.increase(1.0);
    assert_eq!(company, increased());
}

#[test]
fn company_increase_scrapping_boilerplate() {
    let transformation = Transformation::new(|s: Salary| Salary(s.0 + 1.0));
    let mut increase = Everywhere::new(transformation);

    let company = Company::default();
    let company = increase.transform(company);
    assert_eq!(company, increased());
}

#[test]
fn query_highest_salary() {
    let query = Query::new(|s: &Salary| Some(s.clone()));
    let mut highest_salary = Everything::new(query, |a, b| match (a, b) {
        (Some(a), Some(b)) => {
            if a.0 > b.0 {
                Some(a)
            } else {
                Some(b)
            }
        }
        (Some(a), None) => Some(a),
        (_, b) => b,
    });

    let company = Company::default();
    assert_eq!(highest_salary.query(&company), Some(Salary(100000.0)));
}

#[test]
fn five_salaries_go_up_by_one() {
    let mut salaries = Everything::new(
        Query::new(|s: &Salary| vec![s.0]),
        |mut a: Vec<f64>, b: Vec<f64>| {
            a.extend(b);
            a
        },
    );
    let company = Company::default();
    assert_eq!(
        salaries.query(&company),
        vec![8000.0, 1000.0, 2000.0, 3.0, 100000.0]
    );

    let mut increase = Everywhere::new(Transformation::new(|s: Salary| Salary(s.0 + 1.0)));
    let company = increase.transform(company);
    assert_eq!(
        salaries.query(&company),
        vec![8001.0, 1001.0, 2001.0, 4.0, 100001.0]
    );
}

fn highest(company: &Company) -> Option<Salary> {
    let mut highest_salary = Everything::new(
        Query::new(|s: &Salary| Some(s.clone())),
        |a: Option<Salary>, b: Option<Salary>| match (a, b) {
            (Some(a), Some(b)) => Some(if a.0 > b.0 { a } else { b }),
            (Some(a), None) => Some(a),
            (_, b) => b,
        },
    );
    highest_salary.query(company)
}

#[test]
fn the_increase_is_the_one_written_by_hand() {
    let company = Company::default();
    assert_eq!(highest(&company), Some(Salary(100000.0)));

    let mut increase = Everywhere::new(Transformation::new(|s: Salary| Salary(s.0 + 1.0)));
    let company = increase.transform(company);
    assert_eq!(company, Company::default().increase(1.0));
    assert_eq!(company, increased());
    assert_eq!(highest(&company), Some(Salary(100001.0)));
}

#[test]
fn the_increase_in_place_is_the_increase() {
    let mut increase_in_place = MutateEverything::new(
        Mutation::new(|s: &mut Salary| {
            s.0 += 1.0;
            1u32
        }),
        |a, b| a + b,
    );
    let mut company = Company::default();
    assert_eq!(increase_in_place.mutate(&mut company), 5);
    assert_eq!(company, increased());

    let mut increase = Everywhere::new(Transformation::new(|s: Salary| Salary(s.0 + 1.0)));
    assert_eq!(company, increase.transform(Company::default()));
    assert_eq!(highest(&company), Some(Salary(100001.0)));
}

#[test]
fn the_increase_in_place_visits_every_node_once() {
    let mut visit = MutateEverything::new(
        Mutation::or_else(
            || 1u32,
            |s: &mut Salary| {
                s.0 += 1.0;
                1u32
            },
        ),
        |a, b| a + b,
    );
    let mut company = Company::default();
    // 1 company and its list, 3 departments with a name and a list of units
    // each, 3 units and 1 box, 5 employees with a person, two strings and a
    // salary each
    assert_eq!(visit.mutate(&mut company), 2 + 3 * 3 + 3 + 1 + 5 * 5);
    assert_eq!(company, increased());
}
